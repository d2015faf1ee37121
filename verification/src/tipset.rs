//! The messages of a tipset, in the order in which they are applied.

use crate::amount::BigInt;
use crate::cron::{
    attempt_view, cron_notified, cron_view, notified_view, start_cron, CronExecuting,
    CronNotifying, CronStep, CronStepView, CronView, Notification, NotificationView,
};
use crate::error::{ApplyError, ErrorView};
use crate::execution::{
    executed_view, explicit_request, explicit_request_view, explicit_result, gas_limit_error,
    implicit_request, implicit_request_view, implicit_result, implicit_result_view,
    ExecutionRequest, RequestView,
};
use crate::identifiers::{Cid, CidSet};
use crate::message::{
    award_params, award_params_encoding, reward_message, reward_message_view, BlockMessages,
    BlockView, ChainMessage, ChainMessageView, MessageView, UnsignedMessage,
};
use crate::receipt::{receipts_view, ApplyRet, ExecutorRet, Receipt, ReceiptView, RetView};
use vstd::prelude::*;

verus! {

/// How far the messages of a tipset have been applied.
#[derive(Debug)]
struct Progress<'a> {
    blocks: &'a [BlockMessages],
    epoch: i64,
    with_callback: bool,
    receipts: Vec<Receipt>,
    processed: CidSet,
    block: usize,
    next: usize,
    penalty: BigInt,
    gas_reward: BigInt,
}

/// The contents of a `Progress`.
#[verifier::ext_equal]
pub struct ProgressView {
    /// The blocks of the tipset.
    pub blocks: Seq<BlockView>,
    pub epoch: i64,
    /// Whether there is a callback for the results.
    pub with_callback: bool,
    /// The receipts of the messages that were applied, in their order.
    pub receipts: Seq<ReceiptView>,
    /// The identifiers of the messages that were applied.
    pub processed: Set<Seq<u8>>,
    /// The block that is being applied: so many were applied before it.
    pub block: nat,
    /// The next message of that block.
    pub next: nat,
    /// The penalties of the messages of that block.
    pub penalty: int,
    /// The tips of the messages of that block.
    pub gas_reward: int,
}

impl<'a> View for Progress<'a> {
    type V = ProgressView;

    closed spec fn view(&self) -> ProgressView {
        ProgressView {
            blocks: blocks_view(self.blocks@),
            epoch: self.epoch,
            with_callback: self.with_callback,
            receipts: receipts_view(self.receipts@),
            processed: self.processed@,
            block: self.block as nat,
            next: self.next as nat,
            penalty: self.penalty@,
            gas_reward: self.gas_reward@,
        }
    }
}

/// The blocks that a list holds.
pub open spec fn blocks_view(blocks: Seq<BlockMessages>) -> Seq<BlockView> {
    blocks.map_values(|block: BlockMessages| block@)
}

/// What is being executed.
#[derive(Debug)]
enum ExecutingPhase {
    /// The next message of the block.
    Message { cid: Cid },
    /// The message that rewards the block's miner.
    Reward { message: UnsignedMessage },
    /// The message that ends the epoch.
    Cron { run: CronExecuting },
}

/// The contents of an `ExecutingPhase`.
#[verifier::ext_equal]
pub enum ExecutingPhaseView {
    /// The next message of the block, with its identifier.
    Message(Seq<u8>),
    /// The message that rewards the block's miner.
    Reward(MessageView),
    /// The message that ends the epoch.
    Cron(CronView),
}

impl View for ExecutingPhase {
    type V = ExecutingPhaseView;

    closed spec fn view(&self) -> ExecutingPhaseView {
        match self {
            ExecutingPhase::Message { cid } => ExecutingPhaseView::Message(cid@),
            ExecutingPhase::Reward { message } => ExecutingPhaseView::Reward(message@),
            ExecutingPhase::Cron { run } => ExecutingPhaseView::Cron(run@),
        }
    }
}

/// What the callback is called for.
#[derive(Debug)]
enum NotifyingPhase {
    /// The next message of the block.
    Message { cid: Cid, receipt: Receipt, penalty: BigInt, tip: BigInt },
    /// The message that rewards the block's miner.
    Reward,
    /// The message that ends the epoch.
    Cron { run: CronNotifying },
}

/// The contents of a `NotifyingPhase`.
#[verifier::ext_equal]
pub enum NotifyingPhaseView {
    /// The next message of the block, with its identifier, its receipt, its penalty and its tip.
    Message(Seq<u8>, ReceiptView, int, int),
    /// The message that rewards the block's miner.
    Reward,
    /// The message that ends the epoch.
    Cron,
}

impl View for NotifyingPhase {
    type V = NotifyingPhaseView;

    closed spec fn view(&self) -> NotifyingPhaseView {
        match self {
            NotifyingPhase::Message { cid, receipt, penalty, tip } => NotifyingPhaseView::Message(
                cid@,
                receipt@,
                penalty@,
                tip@,
            ),
            NotifyingPhase::Reward => NotifyingPhaseView::Reward,
            NotifyingPhase::Cron { .. } => NotifyingPhaseView::Cron,
        }
    }
}

/// A tipset with a message at the executor.
#[derive(Debug)]
pub struct TipsetExecuting<'a> {
    progress: Progress<'a>,
    phase: ExecutingPhase,
}

/// A tipset with a callback outstanding.
#[derive(Debug)]
pub struct TipsetNotifying<'a> {
    progress: Progress<'a>,
    phase: NotifyingPhase,
}

/// The contents of a `TipsetExecuting`.
#[verifier::ext_equal]
pub struct ExecutingView {
    pub progress: ProgressView,
    pub phase: ExecutingPhaseView,
}

/// The contents of a `TipsetNotifying`.
#[verifier::ext_equal]
pub struct NotifyingView {
    pub progress: ProgressView,
    pub phase: NotifyingPhaseView,
}

impl<'a> View for TipsetExecuting<'a> {
    type V = ExecutingView;

    closed spec fn view(&self) -> ExecutingView {
        ExecutingView { progress: self.progress@, phase: self.phase@ }
    }
}

impl<'a> View for TipsetNotifying<'a> {
    type V = NotifyingView;

    closed spec fn view(&self) -> NotifyingView {
        NotifyingView { progress: self.progress@, phase: self.phase@ }
    }
}

/// What applying the messages of a tipset came to.
#[derive(Debug)]
pub enum TipsetOutcome {
    /// The messages were applied. A failure to end the epoch does not count against them.
    Applied { receipts: Vec<Receipt>, cron_error: Option<ApplyError> },
    /// The messages could not be applied.
    Failed { error: ApplyError },
}

/// The contents of a `TipsetOutcome`.
#[verifier::ext_equal]
pub enum OutcomeView {
    Applied(Seq<ReceiptView>, Option<ErrorView>),
    Failed(ErrorView),
}

impl View for TipsetOutcome {
    type V = OutcomeView;

    open spec fn view(&self) -> OutcomeView {
        match self {
            TipsetOutcome::Applied { receipts, cron_error } => OutcomeView::Applied(
                receipts_view(receipts@),
                match cron_error {
                    Some(error) => Some(error@),
                    None => None,
                },
            ),
            TipsetOutcome::Failed { error } => OutcomeView::Failed(error@),
        }
    }
}

/// How the messages of a tipset go on.
#[derive(Debug)]
pub enum TipsetStep<'a> {
    /// Execute a message, and hand over what the executor answers.
    Execute(ExecutionRequest, TipsetExecuting<'a>),
    /// Call the callback, and hand over what it answers.
    Notify(Notification, TipsetNotifying<'a>),
    /// There is no more to do.
    Finish(TipsetOutcome),
}

/// The contents of a `TipsetStep`.
#[verifier::ext_equal]
pub enum StepView {
    Execute(RequestView, ExecutingView),
    Notify(NotificationView, NotifyingView),
    Finish(OutcomeView),
}

impl<'a> View for TipsetStep<'a> {
    type V = StepView;

    open spec fn view(&self) -> StepView {
        match self {
            TipsetStep::Execute(request, run) => StepView::Execute(request@, run@),
            TipsetStep::Notify(notification, run) => StepView::Notify(notification@, run@),
            TipsetStep::Finish(outcome) => StepView::Finish(outcome@),
        }
    }
}

/// The messages of a tipset could not be applied.
pub open spec fn failed(error: ErrorView) -> StepView {
    StepView::Finish(OutcomeView::Failed(error))
}

impl ProgressView {
    /// The messages of the block that is being applied.
    pub open spec fn messages(self) -> Seq<ChainMessageView> {
        self.blocks[self.block as int].messages
    }

    /// The block and the message are within the tipset, or behind its last ones.
    pub open spec fn in_range(self) -> bool {
        &&& self.block <= self.blocks.len()
        &&& self.next <= if self.block < self.blocks.len() {
            self.messages().len()
        } else {
            0
        }
    }

    /// Applies messages from the next one on. A message that was applied before is passed over.
    /// One with another identifier is for the executor, if its gas limit is valid. After the
    /// block's last message its miner is rewarded, and after the last block the epoch ends.
    pub open spec fn advance(self) -> StepView
        decreases self.messages().len() - self.next,
    {
        if self.block >= self.blocks.len() {
            let run = cron_view(self.epoch, self.with_callback);
            StepView::Execute(
                run.request(),
                ExecutingView { progress: self, phase: ExecutingPhaseView::Cron(run) },
            )
        } else if self.next >= self.messages().len() {
            self.reward()
        } else {
            let message = self.messages()[self.next as int];
            match message.cid() {
                Err(error) => failed(ErrorView::Encoding(error)),
                Ok(cid) => if self.processed.contains(cid) {
                    (ProgressView { next: self.next + 1, ..self }).advance()
                } else {
                    match gas_limit_error(message.message().gas_limit as int) {
                        Some(error) => failed(ErrorView::Message(error)),
                        None => StepView::Execute(
                            explicit_request_view(message),
                            ExecutingView {
                                progress: self,
                                phase: ExecutingPhaseView::Message(cid),
                            },
                        ),
                    }
                },
            }
        }
    }

    /// Rewards the miner of the block with what its messages earned.
    pub open spec fn reward(self) -> StepView {
        let block = self.blocks[self.block as int];
        match award_params_encoding(block.miner, self.penalty, self.gas_reward, block.win_count) {
            Err(error) => failed(ErrorView::Encoding(error)),
            Ok(params) => {
                let message = reward_message_view(self.epoch, params);
                StepView::Execute(
                    implicit_request_view(message),
                    ExecutingView { progress: self, phase: ExecutingPhaseView::Reward(message) },
                )
            },
        }
    }

    /// Books the result of the next message of the block.
    pub open spec fn booked(
        self,
        cid: Seq<u8>,
        receipt: ReceiptView,
        penalty: int,
        tip: int,
    ) -> ProgressView {
        ProgressView {
            receipts: self.receipts.push(receipt),
            processed: self.processed.insert(cid),
            next: self.next + 1,
            penalty: self.penalty + penalty,
            gas_reward: self.gas_reward + tip,
            ..self
        }
    }

    /// Goes on to the next block, of which no message has earned anything.
    pub open spec fn next_block(self) -> ProgressView {
        ProgressView { block: self.block + 1, next: 0, penalty: 0, gas_reward: 0, ..self }
    }

    /// The messages were applied. Whether the epoch could be ended does not change that.
    pub open spec fn applied(self, cron: Result<(), ErrorView>) -> StepView {
        StepView::Finish(
            OutcomeView::Applied(
                self.receipts,
                match cron {
                    Ok(_) => None,
                    Err(error) => Some(error),
                },
            ),
        )
    }
}

impl ExecutingView {
    /// How the tipset goes on once the executor has answered.
    pub open spec fn executed(self, answer: Result<RetView, Seq<char>>) -> StepView {
        let progress = self.progress;
        match self.phase {
            ExecutingPhaseView::Message(cid) => match answer {
                Err(error) => failed(ErrorView::Message(error)),
                Ok(ret) => if progress.with_callback {
                    StepView::Notify(
                        NotificationView {
                            cid,
                            message: progress.messages()[progress.next as int],
                            ret,
                        },
                        NotifyingView {
                            progress,
                            phase: NotifyingPhaseView::Message(
                                cid,
                                ret.receipt,
                                ret.penalty,
                                ret.miner_tip,
                            ),
                        },
                    )
                } else {
                    progress.booked(cid, ret.receipt, ret.penalty, ret.miner_tip).advance()
                },
            },
            ExecutingPhaseView::Reward(message) => match implicit_result_view(answer) {
                Err(error) => failed(ErrorView::Message(error)),
                Ok(ret) => match ret.error {
                    Some(error) => failed(
                        ErrorView::Reward(progress.blocks[progress.block as int].miner, error),
                    ),
                    None => if ret.receipt.exit_code != 0 {
                        failed(ErrorView::RewardExit(ret.receipt.exit_code))
                    } else if progress.with_callback {
                        let message = ChainMessageView::Unsigned(message);
                        StepView::Notify(
                            NotificationView { cid: message.cid()->Ok_0, message, ret },
                            NotifyingView { progress, phase: NotifyingPhaseView::Reward },
                        )
                    } else {
                        progress.next_block().advance()
                    },
                },
            },
            ExecutingPhaseView::Cron(run) => match run.executed(answer) {
                CronStepView::Notify(notification) => StepView::Notify(
                    notification,
                    NotifyingView { progress, phase: NotifyingPhaseView::Cron },
                ),
                CronStepView::Finish(result) => progress.applied(result),
            },
        }
    }
}

impl NotifyingView {
    /// How the tipset goes on once the callback has answered.
    pub open spec fn notified(self, answer: Result<(), Seq<char>>) -> StepView {
        let progress = self.progress;
        match self.phase {
            NotifyingPhaseView::Message(cid, receipt, penalty, tip) => match answer {
                Err(error) => failed(ErrorView::Callback(error)),
                Ok(_) => progress.booked(cid, receipt, penalty, tip).advance(),
            },
            NotifyingPhaseView::Reward => match answer {
                Err(error) => failed(ErrorView::Callback(error)),
                Ok(_) => progress.next_block().advance(),
            },
            NotifyingPhaseView::Cron => progress.applied(cron_notified(answer)),
        }
    }
}

/// A tipset of which no message has been applied.
pub open spec fn unapplied(
    blocks: Seq<BlockView>,
    epoch: i64,
    with_callback: bool,
) -> ProgressView {
    ProgressView {
        blocks,
        epoch,
        with_callback,
        receipts: Seq::empty(),
        processed: Set::empty(),
        block: 0,
        next: 0,
        penalty: 0,
        gas_reward: 0,
    }
}

/// Begins to apply the messages of a tipset.
pub open spec fn tipset_start(
    blocks: Seq<BlockView>,
    epoch: i64,
    with_callback: bool,
) -> StepView {
    unapplied(blocks, epoch, with_callback).advance()
}

impl<'a> Progress<'a> {
    /// The numbers of the block and the message are in range.
    spec fn wf(&self) -> bool {
        self@.in_range()
    }

    /// Applies messages from the next one on.
    fn advance(self) -> (step: TipsetStep<'a>)
        requires
            self.wf(),
        ensures
            step@ == self@.advance(),
    {
        let ghost start = self@;
        let mut progress = self;
        if progress.block >= progress.blocks.len() {
            let (request, run) = start_cron(progress.epoch, progress.with_callback);
            return TipsetStep::Execute(
                request,
                TipsetExecuting { progress, phase: ExecutingPhase::Cron { run } },
            );
        }
        while progress.next < progress.blocks[progress.block].messages.len()
            invariant
                progress.wf(),
                progress.block < progress.blocks.len(),
                progress@.advance() == start.advance(),
                start == self@,
            decreases progress.blocks[progress.block as int].messages.len() - progress.next,
        {
            let message: &ChainMessage = &progress.blocks[progress.block].messages[progress.next];
            assert(message@ == progress@.messages()[progress@.next as int]);
            let cid = match message.cid() {
                Ok(cid) => cid,
                Err(error) => return TipsetStep::Finish(
                    TipsetOutcome::Failed { error: ApplyError::Encoding(error) },
                ),
            };
            // Ensure no duplicate processing of a message.
            if progress.processed.contains(&cid) {
                let ghost before = progress@;
                progress.next = progress.next + 1;
                assert(progress@ =~= ProgressView { next: before.next + 1, ..before });
            } else {
                match explicit_request(message) {
                    Ok(request) => return TipsetStep::Execute(
                        request,
                        TipsetExecuting { progress, phase: ExecutingPhase::Message { cid } },
                    ),
                    Err(error) => return TipsetStep::Finish(
                        TipsetOutcome::Failed { error: ApplyError::Message(error) },
                    ),
                }
            }
        }
        progress.reward()
    }

    /// Rewards the miner of the block with what its messages earned.
    fn reward(self) -> (step: TipsetStep<'a>)
        requires
            self.wf(),
            self.block < self.blocks.len(),
        ensures
            step@ == self@.reward(),
    {
        let params = match award_params(
            &self.blocks[self.block],
            &self.penalty,
            &self.gas_reward,
        ) {
            Ok(params) => params,
            Err(error) => return TipsetStep::Finish(
                TipsetOutcome::Failed { error: ApplyError::Encoding(error) },
            ),
        };
        let message = reward_message(self.epoch, params);
        TipsetStep::Execute(
            implicit_request(&message),
            TipsetExecuting { progress: self, phase: ExecutingPhase::Reward { message } },
        )
    }

    /// Books the result of the next message of the block.
    fn booked(self, cid: Cid, receipt: Receipt, penalty: &BigInt, tip: &BigInt) -> (booked:
        Progress<'a>)
        requires
            self.wf(),
            self.block < self.blocks.len(),
            self.next < self.blocks[self.block as int].messages.len(),
        ensures
            booked.wf(),
            booked@ == self@.booked(cid@, receipt@, penalty@, tip@),
    {
        let ghost before = self@;
        let ghost added = receipt@;
        let mut progress = self;
        progress.gas_reward.increase(tip);
        progress.penalty.increase(penalty);
        progress.receipts.push(receipt);
        progress.processed.insert(cid);
        progress.next = progress.next + 1;
        assert(progress@.receipts =~= before.receipts.push(added));
        progress
    }

    /// Goes on to the next block.
    fn next_block(self) -> (next: Progress<'a>)
        requires
            self.wf(),
            self.block < self.blocks.len(),
        ensures
            next.wf(),
            next@ == self@.next_block(),
    {
        let mut progress = self;
        progress.block = progress.block + 1;
        progress.next = 0;
        progress.penalty = BigInt::zero();
        progress.gas_reward = BigInt::zero();
        progress
    }

    /// The messages were applied. A failure to end the epoch is reported with them.
    fn applied(self, cron: Result<(), ApplyError>) -> (step: TipsetStep<'a>)
        ensures
            step@ == self@.applied(attempt_view(cron)),
    {
        let cron_error = match cron {
            Ok(_) => None,
            Err(error) => Some(error),
        };
        TipsetStep::Finish(TipsetOutcome::Applied { receipts: self.receipts, cron_error })
    }
}

/// Begins to apply the messages of a tipset. `with_callback` says whether there is a callback for
/// the results.
pub fn start_tipset<'a>(blocks: &'a [BlockMessages], epoch: i64, with_callback: bool) -> (step:
    TipsetStep<'a>)
    ensures
        step@ == tipset_start(blocks_view(blocks@), epoch, with_callback),
{
    let progress = Progress {
        blocks,
        epoch,
        with_callback,
        receipts: Vec::new(),
        processed: CidSet::new(),
        block: 0,
        next: 0,
        penalty: BigInt::zero(),
        gas_reward: BigInt::zero(),
    };
    assert(progress@ =~= unapplied(blocks_view(blocks@), epoch, with_callback));
    progress.advance()
}

impl<'a> TipsetExecuting<'a> {
    /// What is being executed stands in the tipset, and has an encoding.
    #[verifier::type_invariant]
    spec fn wf(self) -> bool {
        &&& self.progress.wf()
        &&& match self.phase {
            ExecutingPhase::Message { .. } => {
                &&& self.progress.block < self.progress.blocks.len()
                &&& self.progress.next
                    < self.progress.blocks[self.progress.block as int].messages.len()
            },
            ExecutingPhase::Reward { message } => {
                &&& self.progress.block < self.progress.blocks.len()
                &&& message@.encodable()
            },
            ExecutingPhase::Cron { .. } => true,
        }
    }

    /// Goes on once the executor has answered.
    pub fn executed(self, answer: Result<ExecutorRet, String>) -> (step: TipsetStep<'a>)
        ensures
            step@ == self@.executed(executed_view(answer)),
    {
        proof {
            use_type_invariant(&self);
        }
        let TipsetExecuting { progress, phase } = self;
        match phase {
            ExecutingPhase::Message { cid } => {
                let ret = match explicit_result(answer) {
                    Ok(ret) => ret,
                    Err(error) => return TipsetStep::Finish(
                        TipsetOutcome::Failed { error: ApplyError::Message(error) },
                    ),
                };
                if progress.with_callback {
                    let message = progress.blocks[progress.block].messages[progress.next].clone();
                    let phase = NotifyingPhase::Message {
                        cid: cid.clone(),
                        receipt: ret.msg_receipt.clone(),
                        penalty: ret.penalty.clone(),
                        tip: ret.miner_tip.clone(),
                    };
                    TipsetStep::Notify(
                        Notification { cid, message, ret },
                        TipsetNotifying { progress, phase },
                    )
                } else {
                    progress.booked(cid, ret.msg_receipt, &ret.penalty, &ret.miner_tip).advance()
                }
            },
            ExecutingPhase::Reward { message } => {
                let ret = match implicit_result(answer) {
                    Ok(ret) => ret,
                    Err(error) => return TipsetStep::Finish(
                        TipsetOutcome::Failed { error: ApplyError::Message(error) },
                    ),
                };
                if let Some(error) = ret.act_error {
                    let miner = progress.blocks[progress.block].miner.clone();
                    return TipsetStep::Finish(
                        TipsetOutcome::Failed {
                            error: ApplyError::Reward { miner, error: error.text },
                        },
                    );
                }
                // This is more of a sanity check, this should not be able to be hit.
                if !ret.msg_receipt.exit_code.is_success() {
                    return TipsetStep::Finish(
                        TipsetOutcome::Failed {
                            error: ApplyError::RewardExit(ret.msg_receipt.exit_code),
                        },
                    );
                }
                if progress.with_callback {
                    let message = ChainMessage::Unsigned(message);
                    let cid = message.cid().expect("encoding error");
                    TipsetStep::Notify(
                        Notification { cid, message, ret },
                        TipsetNotifying { progress, phase: NotifyingPhase::Reward },
                    )
                } else {
                    progress.next_block().advance()
                }
            },
            ExecutingPhase::Cron { run } => match run.executed(answer) {
                CronStep::Notify(notification, run) => TipsetStep::Notify(
                    notification,
                    TipsetNotifying { progress, phase: NotifyingPhase::Cron { run } },
                ),
                CronStep::Finish(result) => progress.applied(result),
            },
        }
    }
}

impl<'a> TipsetNotifying<'a> {
    /// What the callback is called for stands in the tipset.
    #[verifier::type_invariant]
    spec fn wf(self) -> bool {
        &&& self.progress.wf()
        &&& match self.phase {
            NotifyingPhase::Message { .. } => {
                &&& self.progress.block < self.progress.blocks.len()
                &&& self.progress.next
                    < self.progress.blocks[self.progress.block as int].messages.len()
            },
            NotifyingPhase::Reward => self.progress.block < self.progress.blocks.len(),
            NotifyingPhase::Cron { .. } => true,
        }
    }

    /// Goes on once the callback has answered.
    pub fn notified(self, answer: Result<(), String>) -> (step: TipsetStep<'a>)
        ensures
            step@ == self@.notified(notified_view(answer)),
    {
        proof {
            use_type_invariant(&self);
        }
        let TipsetNotifying { progress, phase } = self;
        match phase {
            NotifyingPhase::Message { cid, receipt, penalty, tip } => match answer {
                Ok(_) => progress.booked(cid, receipt, &penalty, &tip).advance(),
                Err(error) => TipsetStep::Finish(
                    TipsetOutcome::Failed { error: ApplyError::Callback(error) },
                ),
            },
            NotifyingPhase::Reward => match answer {
                Ok(_) => progress.next_block().advance(),
                Err(error) => TipsetStep::Finish(
                    TipsetOutcome::Failed { error: ApplyError::Callback(error) },
                ),
            },
            NotifyingPhase::Cron { run } => {
                let result = run.notified(answer);
                progress.applied(result)
            },
        }
    }
}

} // verus!
