//! What is handed to the executor, and what is made of its answer.

use crate::amount::BigInt;
use crate::message::{
    message_encoding, ChainMessage, ChainMessageView, MessageView, UnsignedMessage,
};
use crate::receipt::{ApplyRet, ExecutorRet, RetView};
use vstd::prelude::*;

verus! {

/// The kind of message being applied.
#[derive(Debug, Clone, Copy, PartialEq, Eq, Structural)]
pub enum ApplyKind {
    /// From an account, which is charged for the gas.
    Explicit,
    /// From the chain itself, free of charge.
    Implicit,
}

/// A message for the executor.
#[derive(Debug)]
pub struct ExecutionRequest {
    pub message: UnsignedMessage,
    pub kind: ApplyKind,
    /// The length of the message as it stands on chain.
    pub raw_length: usize,
}

/// The contents of an `ExecutionRequest`.
#[verifier::ext_equal]
pub struct RequestView {
    pub message: MessageView,
    pub kind: ApplyKind,
    pub raw_length: nat,
}

impl View for ExecutionRequest {
    type V = RequestView;

    open spec fn view(&self) -> RequestView {
        RequestView {
            message: self.message@,
            kind: self.kind,
            raw_length: self.raw_length as nat,
        }
    }
}

/// The error of a message with the given gas limit, if it has one.
pub open spec fn gas_limit_error(gas_limit: int) -> Option<Seq<char>> {
    if gas_limit == 0 {
        Some("Message has no gas limit set"@)
    } else if gas_limit < 0 {
        Some("Message has negative gas limit"@)
    } else {
        None
    }
}

/// Does some basic checks on the Message to see if the fields are valid.
pub fn check_message(msg: &UnsignedMessage) -> (checked: Result<(), &'static str>)
    ensures
        match checked {
            Ok(_) => gas_limit_error(msg@.gas_limit as int) is None,
            Err(error) => gas_limit_error(msg@.gas_limit as int) == Some(error@),
        },
        checked is Ok <==> msg.gas_limit > 0,
        msg.gas_limit == 0 ==> checked->Err_0@ == "Message has no gas limit set"@,
        msg.gas_limit < 0 ==> checked->Err_0@ == "Message has negative gas limit"@,
{
    if msg.gas_limit() == 0 {
        return Err("Message has no gas limit set");
    }
    if msg.gas_limit() < 0 {
        return Err("Message has negative gas limit");
    }
    Ok(())
}

/// The request to execute a message that stands in a block.
pub open spec fn explicit_request_view(message: ChainMessageView) -> RequestView {
    RequestView {
        message: message.message(),
        kind: ApplyKind::Explicit,
        raw_length: message.encoding()->Ok_0.len(),
    }
}

/// The request to execute a message that the interpreter made.
pub open spec fn implicit_request_view(message: MessageView) -> RequestView {
    RequestView {
        message,
        kind: ApplyKind::Implicit,
        raw_length: ChainMessageView::Unsigned(message).encoding()->Ok_0.len(),
    }
}

/// Checks a message that stands in a block, and makes the request to execute it.
pub fn explicit_request(msg: &ChainMessage) -> (request: Result<ExecutionRequest, String>)
    requires
        msg@.message().gas_limit > 0 ==> msg@.encodable(),
    ensures
        match request {
            Ok(request) => {
                &&& gas_limit_error(msg@.message().gas_limit as int) is None
                &&& request@ == explicit_request_view(msg@)
                &&& request.message@ == msg@.message()
                &&& request.kind == ApplyKind::Explicit
                &&& request.raw_length == msg@.encoding()->Ok_0.len()
            },
            Err(error) => gas_limit_error(msg@.message().gas_limit as int) == Some(error@),
        },
        request is Ok <==> msg@.message().gas_limit > 0,
        msg@.message().gas_limit == 0 ==> request->Err_0@ == "Message has no gas limit set"@,
        msg@.message().gas_limit < 0 ==> request->Err_0@ == "Message has negative gas limit"@,
{
    match check_message(msg.message()) {
        Ok(_) => {},
        Err(error) => return Err(error.to_string()),
    }
    let raw_length: usize = msg.marshal_cbor().expect("encoding error").len();
    Ok(
        ExecutionRequest {
            message: msg.message().clone(),
            kind: ApplyKind::Explicit,
            raw_length,
        },
    )
}

/// Makes the request to execute a message that the interpreter made.
pub fn implicit_request(msg: &UnsignedMessage) -> (request: ExecutionRequest)
    requires
        msg@.encodable(),
    ensures
        request@ == implicit_request_view(msg@),
        request.message@ == msg@,
        request.kind == ApplyKind::Implicit,
        request.raw_length == message_encoding(msg@)->Ok_0.len(),
{
    // The length is not used for implicit messages.
    let raw_length: usize = msg.marshal_cbor().expect("encoding error").len();
    ExecutionRequest { message: msg.clone(), kind: ApplyKind::Implicit, raw_length }
}

/// What the executor answered: its result, or the text of its error.
pub open spec fn executed_view(answer: Result<ExecutorRet, String>) -> Result<RetView, Seq<char>> {
    match answer {
        Ok(ret) => Ok(ret@),
        Err(error) => Err(error@),
    }
}

/// What applying a message came to: its result, or the text of the error.
pub open spec fn applied_view(applied: Result<ApplyRet, String>) -> Result<RetView, Seq<char>> {
    match applied {
        Ok(ret) => Ok(ret@),
        Err(error) => Err(error@),
    }
}

/// What applying a message that the interpreter made comes to: nothing is charged for it.
pub open spec fn implicit_result_view(answer: Result<RetView, Seq<char>>) -> Result<
    RetView,
    Seq<char>,
> {
    match answer {
        Ok(ret) => Ok(ret.uncharged()),
        Err(error) => Err(error),
    }
}

/// What applying a message that stands in a block comes to.
pub fn explicit_result(answer: Result<ExecutorRet, String>) -> (applied: Result<ApplyRet, String>)
    ensures
        applied_view(applied) == executed_view(answer),
        match answer {
            Ok(ret) => applied matches Ok(applied) && applied@ == ret@,
            Err(error) => applied matches Err(e) && e@ == error@,
        },
{
    match answer {
        Ok(ret) => Ok(ApplyRet::from(ret)),
        Err(error) => Err(error),
    }
}

/// What applying a message that the interpreter made comes to: nothing is charged for it.
pub fn implicit_result(answer: Result<ExecutorRet, String>) -> (applied: Result<ApplyRet, String>)
    ensures
        applied_view(applied) == implicit_result_view(executed_view(answer)),
        match answer {
            Ok(ret) => {
                &&& applied matches Ok(applied)
                &&& applied.msg_receipt.exit_code == ret.msg_receipt.exit_code
                &&& applied.msg_receipt.return_data@ == ret.msg_receipt.return_data@
                &&& applied.msg_receipt.gas_used == 0
                &&& applied@.error == ret@.error
                &&& applied.penalty@ == 0
                &&& applied.miner_tip@ == 0
                &&& applied.base_fee_burn@ == ret.base_fee_burn@
                &&& applied.over_estimation_burn@ == ret.over_estimation_burn@
                &&& applied.refund@ == ret.refund@
                &&& applied.gas_refund == ret.gas_refund
                &&& applied.gas_burned == ret.gas_burned
                &&& applied.exec_trace@ == ret.exec_trace@
            },
            Err(error) => applied matches Err(e) && e@ == error@,
        },
{
    match answer {
        Ok(executed) => {
            let mut ret = executed;
            ret.msg_receipt.gas_used = 0;
            ret.miner_tip = BigInt::zero();
            ret.penalty = BigInt::zero();
            Ok(ApplyRet::from(ret))
        },
        Err(error) => Err(error),
    }
}

} // verus!
