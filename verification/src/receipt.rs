//! What comes of executing a message.

use crate::amount::{BigInt, TokenAmount};
use crate::identifiers::{copy_bytes, same_bytes};
use vstd::prelude::*;

verus! {

/// How the execution of a message ended.
#[derive(Debug, Clone, Copy, PartialEq, Eq, Structural)]
pub struct ExitCode {
    pub value: u32,
}

impl ExitCode {
    /// Whether the code is the one of a successful execution.
    pub fn is_success(&self) -> (success: bool)
        ensures
            success == (self.value == 0),
    {
        self.value == 0
    }
}

/// The receipt of a message. This data is stored on chain.
#[derive(Debug)]
pub struct Receipt {
    pub exit_code: ExitCode,
    pub return_data: Vec<u8>,
    pub gas_used: i64,
}

/// The contents of a `Receipt`.
#[verifier::ext_equal]
pub struct ReceiptView {
    pub exit_code: u32,
    pub return_data: Seq<u8>,
    pub gas_used: i64,
}

impl View for Receipt {
    type V = ReceiptView;

    open spec fn view(&self) -> ReceiptView {
        ReceiptView {
            exit_code: self.exit_code.value,
            return_data: self.return_data@,
            gas_used: self.gas_used,
        }
    }
}

impl Clone for Receipt {
    fn clone(&self) -> (copy: Receipt)
        ensures
            copy@ == self@,
    {
        Receipt {
            exit_code: self.exit_code,
            return_data: copy_bytes(&self.return_data),
            gas_used: self.gas_used,
        }
    }
}

/// The receipts that a list holds.
pub open spec fn receipts_view(receipts: Seq<Receipt>) -> Seq<ReceiptView> {
    receipts.map_values(|receipt: Receipt| receipt@)
}

/// The texts that a list holds.
pub open spec fn texts_view(texts: Seq<String>) -> Seq<Seq<char>> {
    texts.map_values(|text: String| text@)
}

/// What the executor reports of a message that it has executed.
#[derive(Debug)]
pub struct ExecutorRet {
    pub msg_receipt: Receipt,
    pub penalty: TokenAmount,
    pub miner_tip: TokenAmount,
    pub base_fee_burn: TokenAmount,
    pub over_estimation_burn: TokenAmount,
    pub refund: TokenAmount,
    pub gas_refund: i64,
    pub gas_burned: i64,
    /// Describes the failure of the message, if it failed.
    pub failure_info: Option<String>,
    /// Describes the events of the execution, in their order.
    pub exec_trace: Vec<String>,
}

/// The error of an actor.
#[derive(Debug)]
pub struct ActorError {
    /// Describes the error.
    pub text: String,
}

/// Apply message return data.
#[derive(Debug)]
pub struct ApplyRet {
    /// Message receipt for the transaction. This data is stored on chain.
    pub msg_receipt: Receipt,
    /// Actor error from the transaction, if one exists.
    pub act_error: Option<ActorError>,
    /// Gas penalty from transaction, if any.
    pub penalty: BigInt,
    /// Tip given to miner from message.
    pub miner_tip: BigInt,
    pub base_fee_burn: TokenAmount,
    pub over_estimation_burn: TokenAmount,
    pub refund: TokenAmount,
    pub gas_refund: i64,
    pub gas_burned: i64,
    /// Execution trace information, for debugging.
    pub exec_trace: Vec<String>,
}

/// The contents of an `ExecutorRet` and of an `ApplyRet`.
#[verifier::ext_equal]
pub struct RetView {
    pub receipt: ReceiptView,
    /// Describes the failure of the message, if it failed.
    pub error: Option<Seq<char>>,
    pub penalty: int,
    pub miner_tip: int,
    pub base_fee_burn: int,
    pub over_estimation_burn: int,
    pub refund: int,
    pub gas_refund: i64,
    pub gas_burned: i64,
    pub exec_trace: Seq<Seq<char>>,
}

impl View for ExecutorRet {
    type V = RetView;

    open spec fn view(&self) -> RetView {
        RetView {
            receipt: self.msg_receipt@,
            error: match self.failure_info {
                Some(text) => Some(text@),
                None => None,
            },
            penalty: self.penalty@,
            miner_tip: self.miner_tip@,
            base_fee_burn: self.base_fee_burn@,
            over_estimation_burn: self.over_estimation_burn@,
            refund: self.refund@,
            gas_refund: self.gas_refund,
            gas_burned: self.gas_burned,
            exec_trace: texts_view(self.exec_trace@),
        }
    }
}

impl View for ApplyRet {
    type V = RetView;

    open spec fn view(&self) -> RetView {
        RetView {
            receipt: self.msg_receipt@,
            error: match self.act_error {
                Some(error) => Some(error.text@),
                None => None,
            },
            penalty: self.penalty@,
            miner_tip: self.miner_tip@,
            base_fee_burn: self.base_fee_burn@,
            over_estimation_burn: self.over_estimation_burn@,
            refund: self.refund@,
            gas_refund: self.gas_refund,
            gas_burned: self.gas_burned,
            exec_trace: texts_view(self.exec_trace@),
        }
    }
}

impl RetView {
    /// The result for a message that is not charged for: no gas used, no tip and no penalty.
    pub open spec fn uncharged(self) -> RetView {
        RetView {
            receipt: ReceiptView { gas_used: 0, ..self.receipt },
            miner_tip: 0,
            penalty: 0,
            ..self
        }
    }

    /// The result of a message that did nothing, successfully.
    pub open spec fn nothing() -> RetView {
        RetView {
            receipt: ReceiptView { exit_code: 0, return_data: Seq::empty(), gas_used: 0 },
            error: None,
            penalty: 0,
            miner_tip: 0,
            base_fee_burn: 0,
            over_estimation_burn: 0,
            refund: 0,
            gas_refund: 0,
            gas_burned: 0,
            exec_trace: Seq::empty(),
        }
    }

    /// The two results agree in penalty and tip, in the receipt, and in whether there was an
    /// error.
    pub open spec fn agrees(self, other: RetView) -> bool {
        &&& self.penalty == other.penalty
        &&& self.miner_tip == other.miner_tip
        &&& self.error is Some == other.error is Some
        &&& self.receipt == other.receipt
    }
}

impl Default for ApplyRet {
    fn default() -> (ret: ApplyRet)
        ensures
            ret@ == RetView::nothing(),
    {
        let ret = ApplyRet {
            msg_receipt: Receipt {
                exit_code: ExitCode { value: 0 },
                return_data: Vec::new(),
                gas_used: 0,
            },
            act_error: None,
            penalty: BigInt::zero(),
            miner_tip: BigInt::zero(),
            base_fee_burn: TokenAmount::from_i64(0),
            over_estimation_burn: TokenAmount::from_i64(0),
            refund: TokenAmount::from_i64(0),
            gas_refund: 0,
            gas_burned: 0,
            exec_trace: Vec::new(),
        };
        assert(ret@ =~= RetView::nothing());
        ret
    }
}

impl ApplyRet {
    /// Whether the two results agree in penalty and tip, in the receipt, and in whether there was
    /// an error.
    fn agrees(&self, other: &ApplyRet) -> (agree: bool)
        ensures
            agree == self@.agrees(other@),
    {
        self.penalty == other.penalty && self.miner_tip == other.miner_tip
            && self.act_error.is_some() == other.act_error.is_some()
            && self.msg_receipt.exit_code == other.msg_receipt.exit_code && same_bytes(
            &self.msg_receipt.return_data,
            &other.msg_receipt.return_data,
        ) && self.msg_receipt.gas_used == other.msg_receipt.gas_used
    }
}

impl Clone for ApplyRet {
    fn clone(&self) -> (copy: ApplyRet)
        ensures
            copy@ == self@,
    {
        let mut exec_trace: Vec<String> = Vec::new();
        let mut i: usize = 0;
        while i < self.exec_trace.len()
            invariant
                i <= self.exec_trace.len(),
                exec_trace@ =~= self.exec_trace@.take(i as int),
            decreases self.exec_trace.len() - i,
        {
            exec_trace.push(self.exec_trace[i].clone());
            i = i + 1;
        }
        assert(self.exec_trace@.take(i as int) =~= self.exec_trace@);
        ApplyRet {
            msg_receipt: self.msg_receipt.clone(),
            act_error: match &self.act_error {
                Some(error) => Some(ActorError { text: error.text.clone() }),
                None => None,
            },
            penalty: self.penalty.clone(),
            miner_tip: self.miner_tip.clone(),
            base_fee_burn: self.base_fee_burn.clone(),
            over_estimation_burn: self.over_estimation_burn.clone(),
            refund: self.refund.clone(),
            gas_refund: self.gas_refund,
            gas_burned: self.gas_burned,
            exec_trace,
        }
    }
}

impl PartialEq for ApplyRet {
    fn eq(&self, other: &ApplyRet) -> (equal: bool) {
        self.agrees(other)
    }
}

impl vstd::std_specs::cmp::PartialEqSpecImpl for ApplyRet {
    open spec fn obeys_eq_spec() -> bool {
        true
    }

    open spec fn eq_spec(&self, other: &ApplyRet) -> bool {
        self@.agrees(other@)
    }
}

/// Equality of results is an equivalence.
pub proof fn law_agreement_is_an_equivalence(a: RetView, b: RetView, c: RetView)
    ensures
        a.agrees(a),
        a.agrees(b) ==> b.agrees(a),
        a.agrees(b) && b.agrees(c) ==> a.agrees(c),
{
}

impl From<ExecutorRet> for ApplyRet {
    fn from(ret: ExecutorRet) -> (applied: ApplyRet) {
        ApplyRet {
            msg_receipt: ret.msg_receipt,
            act_error: match ret.failure_info {
                Some(text) => Some(ActorError { text }),
                None => None,
            },
            penalty: ret.penalty,
            miner_tip: ret.miner_tip,
            base_fee_burn: ret.base_fee_burn,
            over_estimation_burn: ret.over_estimation_burn,
            refund: ret.refund,
            gas_refund: ret.gas_refund,
            gas_burned: ret.gas_burned,
            exec_trace: ret.exec_trace,
        }
    }
}

impl vstd::std_specs::convert::FromSpecImpl<ExecutorRet> for ApplyRet {
    open spec fn obeys_from_spec() -> bool {
        true
    }

    open spec fn from_spec(ret: ExecutorRet) -> ApplyRet {
        ApplyRet {
            msg_receipt: ret.msg_receipt,
            act_error: match ret.failure_info {
                Some(text) => Some(ActorError { text }),
                None => None,
            },
            penalty: ret.penalty,
            miner_tip: ret.miner_tip,
            base_fee_burn: ret.base_fee_burn,
            over_estimation_burn: ret.over_estimation_burn,
            refund: ret.refund,
            gas_refund: ret.gas_refund,
            gas_burned: ret.gas_burned,
            exec_trace: ret.exec_trace,
        }
    }
}

/// Taking a result over from the executor loses nothing of it and adds nothing to it.
pub proof fn law_from_keeps_contents(ret: ExecutorRet)
    ensures
        <ApplyRet as vstd::std_specs::convert::FromSpec<ExecutorRet>>::from_spec(ret)@ == ret@,
{
}

} // verus!
