//! What holds of every way in which the messages of a tipset can go.

use crate::cron::{cron_view, CronView};
use crate::execution::{
    explicit_request_view, gas_limit_error, implicit_request_view, ApplyKind, RequestView,
};
use crate::message::{
    award_params_encoding, message_encoding, reward_message_view, BlockView, ChainMessageView,
};
use crate::receipt::{ReceiptView, RetView};
use crate::tipset::{
    tipset_start, unapplied, ExecutingPhaseView, ExecutingView, NotifyingPhaseView, NotifyingView,
    OutcomeView, ProgressView, StepView,
};
use crate::value_laws::{awards, ends_epoch, freed, law_cron_message, law_reward_message};
use vstd::prelude::*;

verus! {

/// An answer to a step: of the executor, or of the callback.
pub enum AnswerView {
    Executed(Result<RetView, Seq<char>>),
    Notified(Result<(), Seq<char>>),
}

/// The answer is one to the step. There is none to the last step.
pub open spec fn fits(step: StepView, answer: AnswerView) -> bool {
    match step {
        StepView::Execute(_, _) => answer is Executed,
        StepView::Notify(_, _) => answer is Notified,
        StepView::Finish(_) => false,
    }
}

/// The step after an answer.
pub open spec fn next_step(step: StepView, answer: AnswerView) -> StepView {
    match (step, answer) {
        (StepView::Execute(_, run), AnswerView::Executed(answer)) => run.executed(answer),
        (StepView::Notify(_, run), AnswerView::Notified(answer)) => run.notified(answer),
        _ => step,
    }
}

/// What happened while the messages of a tipset were applied.
#[verifier::ext_equal]
pub struct Log {
    /// The identifiers of the messages of blocks that were handed to the executor.
    pub executed: Seq<Seq<u8>>,
    /// The results of those messages.
    pub results: Seq<RetView>,
    /// The results of those messages that stand in the block that was not yet rewarded.
    pub block_results: Seq<RetView>,
    /// The blocks whose reward was handed to the executor.
    pub rewarded: Seq<int>,
    /// How often the end of the epoch was handed to the executor.
    pub cron_runs: nat,
}

impl Log {
    /// Nothing has happened.
    pub open spec fn empty() -> Log {
        Log {
            executed: Seq::empty(),
            results: Seq::empty(),
            block_results: Seq::empty(),
            rewarded: Seq::empty(),
            cron_runs: 0,
        }
    }

    /// The step is taken.
    pub open spec fn with_step(self, step: StepView) -> Log {
        match step {
            StepView::Execute(_, run) => match run.phase {
                ExecutingPhaseView::Message(cid) => Log {
                    executed: self.executed.push(cid),
                    ..self
                },
                ExecutingPhaseView::Reward(_) => Log {
                    rewarded: self.rewarded.push(run.progress.block as int),
                    ..self
                },
                ExecutingPhaseView::Cron(_) => Log { cron_runs: self.cron_runs + 1, ..self },
            },
            _ => self,
        }
    }

    /// The step is answered.
    pub open spec fn with_answer(self, step: StepView, answer: AnswerView) -> Log {
        match (step, answer) {
            (StepView::Execute(_, run), AnswerView::Executed(Ok(ret))) => match run.phase {
                ExecutingPhaseView::Message(_) => Log {
                    results: self.results.push(ret),
                    block_results: self.block_results.push(ret),
                    ..self
                },
                ExecutingPhaseView::Reward(_) => Log { block_results: Seq::empty(), ..self },
                ExecutingPhaseView::Cron(_) => self,
            },
            _ => self,
        }
    }
}

/// The step that comes after the answers, and what happened until then.
pub open spec fn history(start: StepView, answers: Seq<AnswerView>) -> (StepView, Log)
    decreases answers.len(),
{
    if answers.len() == 0 {
        (start, Log::empty().with_step(start))
    } else {
        let (step, log) = history(start, answers.drop_last());
        let next = next_step(step, answers.last());
        (next, log.with_answer(step, answers.last()).with_step(next))
    }
}

/// Each answer is one to the step at which it came.
pub open spec fn fitting(start: StepView, answers: Seq<AnswerView>) -> bool
    decreases answers.len(),
{
    answers.len() == 0 || {
        &&& fitting(start, answers.drop_last())
        &&& fits(history(start, answers.drop_last()).0, answers.last())
    }
}

/// The identifiers of the messages of the first `block` blocks and of the first `next` messages
/// of the block behind them, each at its first occurrence.
pub open spec fn first_occurrences(blocks: Seq<BlockView>, block: nat, next: nat) -> Seq<Seq<u8>>
    decreases block, next,
{
    if next > 0 {
        let earlier = first_occurrences(blocks, block, (next - 1) as nat);
        let cid = blocks[block as int].messages[next - 1].cid()->Ok_0;
        if earlier.contains(cid) {
            earlier
        } else {
            earlier.push(cid)
        }
    } else if block > 0 {
        first_occurrences(
            blocks,
            (block - 1) as nat,
            blocks[block - 1].messages.len(),
        )
    } else {
        Seq::empty()
    }
}

/// Each message of the first `block` blocks, and each of the first `next` messages of the block
/// behind them, has an identifier.
pub open spec fn identified(blocks: Seq<BlockView>, block: nat, next: nat) -> bool {
    &&& forall|b: int, m: int|
        0 <= b < block && 0 <= m < blocks[b].messages.len() ==> (
        #[trigger] blocks[b].messages[m]).cid() is Ok
    &&& forall|m: int|
        0 <= m < next ==> (#[trigger] blocks[block as int].messages[m]).cid() is Ok
}

/// The sum of the penalties.
pub open spec fn total_penalty(results: Seq<RetView>) -> int
    decreases results.len(),
{
    if results.len() == 0 {
        0
    } else {
        total_penalty(results.drop_last()) + results.last().penalty
    }
}

/// The sum of the tips.
pub open spec fn total_tip(results: Seq<RetView>) -> int
    decreases results.len(),
{
    if results.len() == 0 {
        0
    } else {
        total_tip(results.drop_last()) + results.last().miner_tip
    }
}

/// The receipts of the results.
pub open spec fn receipts_of(results: Seq<RetView>) -> Seq<ReceiptView> {
    results.map_values(|ret: RetView| ret.receipt)
}

/// The numbers below `count`.
pub open spec fn numbers(count: nat) -> Seq<int> {
    Seq::new(count, |i: int| i)
}

/// First occurrences are all different.
proof fn lemma_first_occurrences_differ(blocks: Seq<BlockView>, block: nat, next: nat)
    ensures
        first_occurrences(blocks, block, next).no_duplicates(),
    decreases block, next,
{
    if next > 0 {
        lemma_first_occurrences_differ(blocks, block, (next - 1) as nat);
    } else if block > 0 {
        lemma_first_occurrences_differ(
            blocks,
            (block - 1) as nat,
            blocks[block - 1].messages.len(),
        );
    }
}

/// A message whose identifier has occurred adds nothing to the first occurrences.
proof fn lemma_repeated(blocks: Seq<BlockView>, block: nat, next: nat)
    requires
        first_occurrences(blocks, block, next).contains(
            blocks[block as int].messages[next as int].cid()->Ok_0,
        ),
    ensures
        first_occurrences(blocks, block, next + 1) == first_occurrences(blocks, block, next),
{
}

/// The steps that applying messages can lead to.
pub open spec fn advanced(from: ProgressView, step: StepView) -> bool {
    match step {
        StepView::Finish(outcome) => outcome is Failed,
        StepView::Notify(_, _) => false,
        StepView::Execute(request, run) => {
            let to = run.progress;
            &&& to == ProgressView { next: to.next, ..from }
            &&& from.next <= to.next
            &&& to.in_range()
            &&& first_occurrences(to.blocks, to.block, to.next) == first_occurrences(
                from.blocks,
                from.block,
                from.next,
            )
            &&& forall|m: int|
                from.next <= m < to.next ==> (#[trigger] to.messages()[m]).cid() is Ok
            &&& handed_over(request, run)
        },
    }
}

/// What is handed to the executor is what the tipset holds.
pub open spec fn handed_over(request: RequestView, run: ExecutingView) -> bool {
    let progress = run.progress;
    match run.phase {
        ExecutingPhaseView::Message(cid) => {
            let message = progress.messages()[progress.next as int];
            &&& progress.block < progress.blocks.len()
            &&& progress.next < progress.messages().len()
            &&& message.cid() == Ok::<Seq<u8>, Seq<char>>(cid)
            &&& !progress.processed.contains(cid)
            &&& gas_limit_error(message.message().gas_limit as int) is None
            &&& request == explicit_request_view(message)
        },
        ExecutingPhaseView::Reward(message) => {
            let block = progress.blocks[progress.block as int];
            let params = award_params_encoding(
                block.miner,
                progress.penalty,
                progress.gas_reward,
                block.win_count,
            );
            &&& progress.block < progress.blocks.len()
            &&& progress.next == progress.messages().len()
            &&& params is Ok
            &&& message == reward_message_view(progress.epoch, params->Ok_0)
            &&& request == implicit_request_view(message)
        },
        ExecutingPhaseView::Cron(run) => {
            &&& progress.block == progress.blocks.len()
            &&& run == cron_view(progress.epoch, progress.with_callback)
            &&& request == run.request()
        },
    }
}

/// Applying messages passes over those whose identifiers have occurred, and over no others.
proof fn lemma_advance(progress: ProgressView)
    requires
        progress.in_range(),
        progress.processed == first_occurrences(
            progress.blocks,
            progress.block,
            progress.next,
        ).to_set(),
    ensures
        advanced(progress, progress.advance()),
    decreases progress.messages().len() - progress.next,
{
    if progress.block < progress.blocks.len() && progress.next < progress.messages().len() {
        let message = progress.messages()[progress.next as int];
        if let Ok(cid) = message.cid() {
            if progress.processed.contains(cid) {
                let passed = ProgressView { next: progress.next + 1, ..progress };
                lemma_repeated(progress.blocks, progress.block, progress.next);
                lemma_advance(passed);
            }
        }
    }
}

/// What holds at each step: how the progress of the tipset follows from what happened.
pub open spec fn accounted(
    blocks: Seq<BlockView>,
    epoch: i64,
    with_callback: bool,
    step: StepView,
    log: Log,
) -> bool {
    &&& log.executed.no_duplicates()
    &&& match step {
        StepView::Execute(request, run) => {
            let progress = run.progress;
            &&& standing(blocks, epoch, with_callback, progress)
            &&& handed_over(request, run)
            &&& progress.receipts == receipts_of(log.results)
            &&& progress.penalty == total_penalty(log.block_results)
            &&& progress.gas_reward == total_tip(log.block_results)
            &&& match run.phase {
                ExecutingPhaseView::Message(cid) => {
                    &&& log.executed == reached(progress).push(cid)
                    &&& log.executed.len() == log.results.len() + 1
                    &&& log.rewarded == numbers(progress.block)
                    &&& log.cron_runs == 0
                },
                ExecutingPhaseView::Reward(_) => {
                    &&& log.executed == reached(progress)
                    &&& log.executed.len() == log.results.len()
                    &&& log.rewarded == numbers(progress.block + 1)
                    &&& log.cron_runs == 0
                },
                ExecutingPhaseView::Cron(_) => {
                    &&& log.executed == reached(progress)
                    &&& log.executed.len() == log.results.len()
                    &&& log.rewarded == numbers(progress.block)
                    &&& log.cron_runs == 1
                },
            }
        },
        StepView::Notify(notification, run) => {
            let progress = run.progress;
            &&& with_callback
            &&& standing(blocks, epoch, with_callback, progress)
            &&& match run.phase {
                NotifyingPhaseView::Message(cid, receipt, penalty, tip) => {
                    &&& progress.block < blocks.len()
                    &&& progress.next < progress.messages().len()
                    &&& progress.messages()[progress.next as int].cid() == Ok::<
                        Seq<u8>,
                        Seq<char>,
                    >(cid)
                    &&& log.executed == reached(progress).push(cid)
                    &&& log.executed.len() == log.results.len()
                    &&& progress.receipts.push(receipt) == receipts_of(log.results)
                    &&& progress.penalty + penalty == total_penalty(log.block_results)
                    &&& progress.gas_reward + tip == total_tip(log.block_results)
                    &&& log.rewarded == numbers(progress.block)
                    &&& log.cron_runs == 0
                },
                NotifyingPhaseView::Reward => {
                    &&& progress.block < blocks.len()
                    &&& progress.next == progress.messages().len()
                    &&& log.executed == reached(progress)
                    &&& log.executed.len() == log.results.len()
                    &&& progress.receipts == receipts_of(log.results)
                    &&& log.block_results.len() == 0
                    &&& log.rewarded == numbers(progress.block + 1)
                    &&& log.cron_runs == 0
                },
                NotifyingPhaseView::Cron => {
                    &&& progress.block == blocks.len()
                    &&& log.executed == reached(progress)
                    &&& log.executed.len() == log.results.len()
                    &&& progress.receipts == receipts_of(log.results)
                    &&& log.rewarded == numbers(progress.block)
                    &&& log.cron_runs == 1
                },
            }
        },
        StepView::Finish(OutcomeView::Applied(receipts, _)) => {
            &&& identified(blocks, blocks.len(), 0)
            &&& log.executed == first_occurrences(blocks, blocks.len(), 0)
            &&& log.executed.len() == log.results.len()
            &&& receipts == receipts_of(log.results)
            &&& log.rewarded == numbers(blocks.len())
            &&& log.cron_runs == 1
        },
        StepView::Finish(OutcomeView::Failed(_)) => log.cron_runs == 0,
    }
}

/// The identifiers of the messages that were reached, each at its first occurrence.
pub open spec fn reached(progress: ProgressView) -> Seq<Seq<u8>> {
    first_occurrences(progress.blocks, progress.block, progress.next)
}

/// The progress is one of the tipset, and the messages that were reached are those that were
/// processed.
pub open spec fn standing(
    blocks: Seq<BlockView>,
    epoch: i64,
    with_callback: bool,
    progress: ProgressView,
) -> bool {
    &&& progress.blocks == blocks
    &&& progress.epoch == epoch
    &&& progress.with_callback == with_callback
    &&& progress.in_range()
    &&& progress.processed == reached(progress).to_set()
    &&& identified(blocks, progress.block, progress.next)
}

/// The books are in order once messages were applied from a progress whose books are in order.
proof fn lemma_advance_is_accounted(
    blocks: Seq<BlockView>,
    epoch: i64,
    with_callback: bool,
    progress: ProgressView,
    log: Log,
)
    requires
        standing(blocks, epoch, with_callback, progress),
        log.executed == reached(progress),
        log.executed.len() == log.results.len(),
        progress.receipts == receipts_of(log.results),
        progress.penalty == total_penalty(log.block_results),
        progress.gas_reward == total_tip(log.block_results),
        log.rewarded == numbers(progress.block),
        log.cron_runs == 0,
    ensures
        accounted(
            blocks,
            epoch,
            with_callback,
            progress.advance(),
            log.with_step(progress.advance()),
        ),
{
    lemma_advance(progress);
    lemma_first_occurrences_differ(blocks, progress.block, progress.next);
    let step = progress.advance();
    if let StepView::Execute(_, run) = step {
        let to = run.progress;
        assert forall|m: int| 0 <= m < to.next implies (
        #[trigger] blocks[to.block as int].messages[m]).cid() is Ok by {
            if m >= progress.next {
                assert(to.messages()[m].cid() is Ok);
            }
        }
        match run.phase {
            ExecutingPhaseView::Message(cid) => {
                assert(!reached(to).contains(cid));
            },
            ExecutingPhaseView::Reward(_) => {
                assert(numbers(to.block).push(to.block as int) =~= numbers(to.block + 1));
            },
            ExecutingPhaseView::Cron(_) => {},
        }
    }
}

/// Behind the last message of a block stands the first one of the next.
proof fn lemma_next_block_is_standing(
    blocks: Seq<BlockView>,
    epoch: i64,
    with_callback: bool,
    progress: ProgressView,
)
    requires
        standing(blocks, epoch, with_callback, progress),
        progress.block < blocks.len(),
        progress.next == progress.messages().len(),
    ensures
        standing(blocks, epoch, with_callback, progress.next_block()),
        reached(progress.next_block()) == reached(progress),
{
}

/// A message that was booked counts among those that were reached.
proof fn lemma_booked_is_standing(
    blocks: Seq<BlockView>,
    epoch: i64,
    with_callback: bool,
    progress: ProgressView,
    cid: Seq<u8>,
    receipt: ReceiptView,
    penalty: int,
    tip: int,
)
    requires
        standing(blocks, epoch, with_callback, progress),
        progress.block < blocks.len(),
        progress.next < progress.messages().len(),
        progress.messages()[progress.next as int].cid() == Ok::<Seq<u8>, Seq<char>>(cid),
        reached(progress).push(cid).no_duplicates(),
    ensures
        standing(blocks, epoch, with_callback, progress.booked(cid, receipt, penalty, tip)),
        reached(progress.booked(cid, receipt, penalty, tip)) == reached(progress).push(cid),
{
    let before = reached(progress);
    let after = before.push(cid);
    assert(!before.contains(cid)) by {
        if before.contains(cid) {
            let i = choose|i: int| 0 <= i < before.len() && before[i] == cid;
            assert(after[i] == after[before.len() as int]);
        }
    }
    assert(after.to_set() =~= before.to_set().insert(cid)) by {
        assert(after[before.len() as int] == cid);
        assert forall|c: Seq<u8>| before.contains(c) implies after.contains(c) by {
            let i = choose|i: int| 0 <= i < before.len() && before[i] == c;
            assert(after[i] == c);
        }
    }
}

/// One more result adds its penalty, its tip and its receipt.
proof fn lemma_one_more_result(results: Seq<RetView>, ret: RetView)
    ensures
        total_penalty(results.push(ret)) == total_penalty(results) + ret.penalty,
        total_tip(results.push(ret)) == total_tip(results) + ret.miner_tip,
        receipts_of(results.push(ret)) == receipts_of(results).push(ret.receipt),
{
    assert(results.push(ret).drop_last() =~= results);
    assert(receipts_of(results.push(ret)) =~= receipts_of(results).push(ret.receipt));
}

/// The books are in order at each step.
proof fn lemma_accounted(
    blocks: Seq<BlockView>,
    epoch: i64,
    with_callback: bool,
    answers: Seq<AnswerView>,
)
    requires
        fitting(tipset_start(blocks, epoch, with_callback), answers),
    ensures
        ({
            let (step, log) = history(tipset_start(blocks, epoch, with_callback), answers);
            accounted(blocks, epoch, with_callback, step, log)
        }),
    decreases answers.len(),
{
    let start = tipset_start(blocks, epoch, with_callback);
    if answers.len() == 0 {
        let progress = unapplied(blocks, epoch, with_callback);
        assert(reached(progress) =~= Seq::<Seq<u8>>::empty());
        assert(reached(progress).to_set() =~= Set::<Seq<u8>>::empty());
        assert(receipts_of(Log::empty().results) =~= Seq::<ReceiptView>::empty());
        assert(numbers(0) =~= Seq::<int>::empty());
        lemma_advance_is_accounted(blocks, epoch, with_callback, progress, Log::empty());
    } else {
        lemma_accounted(blocks, epoch, with_callback, answers.drop_last());
        let (step, log) = history(start, answers.drop_last());
        lemma_step_is_accounted(blocks, epoch, with_callback, step, log, answers.last());
    }
}

/// The books are in order after a step at which they are.
proof fn lemma_step_is_accounted(
    blocks: Seq<BlockView>,
    epoch: i64,
    with_callback: bool,
    step: StepView,
    log: Log,
    answer: AnswerView,
)
    requires
        accounted(blocks, epoch, with_callback, step, log),
        fits(step, answer),
    ensures
        ({
            let next = next_step(step, answer);
            accounted(
                blocks,
                epoch,
                with_callback,
                next,
                log.with_answer(step, answer).with_step(next),
            )
        }),
{
    let after = log.with_answer(step, answer);
    match (step, answer) {
        (StepView::Execute(_, run), AnswerView::Executed(Ok(ret))) => {
            let progress = run.progress;
            match run.phase {
                ExecutingPhaseView::Message(cid) => {
                    lemma_one_more_result(log.results, ret);
                    lemma_one_more_result(log.block_results, ret);
                    if !with_callback {
                        lemma_booked_is_standing(
                            blocks,
                            epoch,
                            with_callback,
                            progress,
                            cid,
                            ret.receipt,
                            ret.penalty,
                            ret.miner_tip,
                        );
                        lemma_advance_is_accounted(
                            blocks,
                            epoch,
                            with_callback,
                            progress.booked(cid, ret.receipt, ret.penalty, ret.miner_tip),
                            after,
                        );
                    }
                },
                ExecutingPhaseView::Reward(_) => {
                    lemma_next_block_is_standing(blocks, epoch, with_callback, progress);
                    if !with_callback && ret.error is None && ret.receipt.exit_code == 0 {
                        lemma_advance_is_accounted(
                            blocks,
                            epoch,
                            with_callback,
                            progress.next_block(),
                            after,
                        );
                    }
                },
                ExecutingPhaseView::Cron(_) => {},
            }
        },
        (StepView::Notify(_, run), AnswerView::Notified(Ok(_))) => {
            let progress = run.progress;
            match run.phase {
                NotifyingPhaseView::Message(cid, receipt, penalty, tip) => {
                    lemma_booked_is_standing(
                        blocks,
                        epoch,
                        with_callback,
                        progress,
                        cid,
                        receipt,
                        penalty,
                        tip,
                    );
                    lemma_advance_is_accounted(
                        blocks,
                        epoch,
                        with_callback,
                        progress.booked(cid, receipt, penalty, tip),
                        after,
                    );
                },
                NotifyingPhaseView::Reward => {
                    lemma_next_block_is_standing(blocks, epoch, with_callback, progress);
                    lemma_advance_is_accounted(
                        blocks,
                        epoch,
                        with_callback,
                        progress.next_block(),
                        after,
                    );
                },
                NotifyingPhaseView::Cron => {},
            }
        },
        _ => {},
    }
}

/// No message is executed twice, in whatever blocks it stands and whatever the executor and the
/// callback answer.
pub proof fn law_no_message_is_executed_twice(
    blocks: Seq<BlockView>,
    epoch: i64,
    with_callback: bool,
    answers: Seq<AnswerView>,
)
    requires
        fitting(tipset_start(blocks, epoch, with_callback), answers),
    ensures
        history(tipset_start(blocks, epoch, with_callback), answers).1.executed.no_duplicates(),
{
    lemma_accounted(blocks, epoch, with_callback, answers);
}

/// First occurrences are those of all messages, and of nothing else.
pub proof fn law_first_occurrences_are_the_messages(
    blocks: Seq<BlockView>,
    block: nat,
    next: nat,
    cid: Seq<u8>,
)
    requires
        block <= blocks.len(),
        next <= if block < blocks.len() {
            blocks[block as int].messages.len()
        } else {
            0
        },
        identified(blocks, block, next),
    ensures
        first_occurrences(blocks, block, next).no_duplicates(),
        first_occurrences(blocks, block, next).contains(cid) <==> occurs(blocks, block, next, cid),
    decreases block, next,
{
    lemma_first_occurrences_differ(blocks, block, next);
    if next > 0 {
        let before = (next - 1) as nat;
        law_first_occurrences_are_the_messages(blocks, block, before, cid);
        let message = blocks[block as int].messages[next - 1];
        let earlier = first_occurrences(blocks, block, before);
        let last = message.cid()->Ok_0;
        assert(message.cid() is Ok);
        if cid == last {
            assert(is_message(blocks, block as int, next - 1, cid));
            assert(earlier.push(last)[earlier.len() as int] == cid);
        } else {
            assert forall|m: int|
                0 <= m < next && is_message(blocks, block as int, m, cid) implies m < next
                - 1 by {}
            if earlier.contains(cid) {
                let i = choose|i: int| 0 <= i < earlier.len() && earlier[i] == cid;
                assert(earlier.push(last)[i] == cid);
            }
            if earlier.push(last).contains(cid) {
                let i = choose|i: int|
                    0 <= i < earlier.push(last).len() && earlier.push(last)[i] == cid;
                assert(earlier[i] == cid);
            }
        }
    } else if block > 0 {
        let before = (block - 1) as nat;
        let count = blocks[block - 1].messages.len();
        law_first_occurrences_are_the_messages(blocks, before, count, cid);
    }
}

/// The message `m` of block `b` has the identifier `cid`.
pub open spec fn is_message(blocks: Seq<BlockView>, b: int, m: int, cid: Seq<u8>) -> bool {
    blocks[b].messages[m].cid() == Ok::<Seq<u8>, Seq<char>>(cid)
}

/// `cid` identifies a message of the first `block` blocks, or one of the first `next` messages of
/// the block behind them.
pub open spec fn occurs(blocks: Seq<BlockView>, block: nat, next: nat, cid: Seq<u8>) -> bool {
    ||| exists|b: int, m: int|
        0 <= b < block && 0 <= m < blocks[b].messages.len() && #[trigger] is_message(
            blocks,
            b,
            m,
            cid,
        )
    ||| exists|m: int| 0 <= m < next && #[trigger] is_message(blocks, block as int, m, cid)
}

/// Where the messages of a tipset were applied, each of them has an identifier and was executed,
/// once, at its first occurrence and in the order of the blocks; the receipts are those of the
/// results, in the same order; the miner of each block was rewarded, once and in the order of the
/// blocks; and the epoch was ended once.
pub proof fn law_applied_tipset_is_complete(
    blocks: Seq<BlockView>,
    epoch: i64,
    with_callback: bool,
    answers: Seq<AnswerView>,
)
    requires
        fitting(tipset_start(blocks, epoch, with_callback), answers),
    ensures
        ({
            let (step, log) = history(tipset_start(blocks, epoch, with_callback), answers);
            step matches StepView::Finish(OutcomeView::Applied(receipts, _)) ==> {
                &&& identified(blocks, blocks.len(), 0)
                &&& log.executed == first_occurrences(blocks, blocks.len(), 0)
                &&& log.results.len() == log.executed.len()
                &&& receipts == receipts_of(log.results)
                &&& log.rewarded == numbers(blocks.len())
                &&& log.cron_runs == 1
            }
        }),
{
    lemma_accounted(blocks, epoch, with_callback, answers);
}

/// Where the messages of a tipset could not be applied, the epoch was not ended either.
pub proof fn law_failed_tipset_does_not_end_the_epoch(
    blocks: Seq<BlockView>,
    epoch: i64,
    with_callback: bool,
    answers: Seq<AnswerView>,
)
    requires
        fitting(tipset_start(blocks, epoch, with_callback), answers),
    ensures
        ({
            let (step, log) = history(tipset_start(blocks, epoch, with_callback), answers);
            step matches StepView::Finish(OutcomeView::Failed(_)) ==> log.cron_runs == 0
        }),
{
    lemma_accounted(blocks, epoch, with_callback, answers);
}

/// Once the epoch is being ended the messages count as applied: whatever the executor and the
/// callback still answer, the outcome holds the receipts.
pub proof fn law_failure_to_end_the_epoch_costs_no_receipts(
    run: ExecutingView,
    executed: Result<RetView, Seq<char>>,
    notified: Result<(), Seq<char>>,
)
    requires
        run.phase is Cron,
    ensures
        match run.executed(executed) {
            StepView::Finish(outcome) => outcome matches OutcomeView::Applied(receipts, _)
                && receipts == run.progress.receipts,
            StepView::Notify(_, waiting) => waiting.notified(notified) matches StepView::Finish(
                OutcomeView::Applied(receipts, _),
            ) && receipts == run.progress.receipts,
            StepView::Execute(_, _) => false,
        },
{
}

/// The reward of a block is computed from the penalties and the tips of the messages that were
/// executed for that block. It is sent by the system actor to the reward actor, free of charge,
/// with the epoch as its sequence number.
pub proof fn law_reward_is_what_the_block_earned(
    blocks: Seq<BlockView>,
    epoch: i64,
    with_callback: bool,
    answers: Seq<AnswerView>,
)
    requires
        fitting(tipset_start(blocks, epoch, with_callback), answers),
    ensures
        ({
            let (step, log) = history(tipset_start(blocks, epoch, with_callback), answers);
            step matches StepView::Execute(request, run) ==> {
                run.phase is Reward ==> {
                    let block = blocks[run.progress.block as int];
                    let params = award_params_encoding(
                        block.miner,
                        total_penalty(log.block_results),
                        total_tip(log.block_results),
                        block.win_count,
                    );
                    &&& run.progress.block < blocks.len()
                    &&& params is Ok
                    &&& request == implicit_request_view(reward_message_view(epoch, params->Ok_0))
                    &&& awards(request.message, epoch, params->Ok_0)
                    &&& request.kind == ApplyKind::Implicit
                    &&& request.raw_length == message_encoding(request.message)->Ok_0.len()
                    &&& run.phase == ExecutingPhaseView::Reward(request.message)
                }
            }
        }),
{
    lemma_accounted(blocks, epoch, with_callback, answers);
    let (step, log) = history(tipset_start(blocks, epoch, with_callback), answers);
    if let StepView::Execute(_, run) = step {
        if run.phase is Reward {
            let block = blocks[run.progress.block as int];
            let params = award_params_encoding(
                block.miner,
                total_penalty(log.block_results),
                total_tip(log.block_results),
                block.win_count,
            );
            law_reward_message(epoch, params->Ok_0);
        }
    }
}

/// The epoch is ended by a message from the system actor to the cron actor, free of charge, with
/// the epoch as its sequence number.
pub proof fn law_epoch_is_ended_by_its_message(
    blocks: Seq<BlockView>,
    epoch: i64,
    with_callback: bool,
    answers: Seq<AnswerView>,
)
    requires
        fitting(tipset_start(blocks, epoch, with_callback), answers),
    ensures
        ({
            let (step, _) = history(tipset_start(blocks, epoch, with_callback), answers);
            step matches StepView::Execute(request, run) ==> {
                run.phase is Cron ==> {
                    &&& ends_epoch(request.message, epoch)
                    &&& request.kind == ApplyKind::Implicit
                    &&& request.raw_length == message_encoding(request.message)->Ok_0.len()
                    &&& run.phase->Cron_0.message == request.message
                    &&& run.phase->Cron_0.with_callback == with_callback
                }
            }
        }),
{
    lemma_accounted(blocks, epoch, with_callback, answers);
    law_cron_message(epoch);
}

/// Rewards that are handed to the executor in different epochs are different messages, whatever
/// the blocks and the answers.
pub proof fn law_rewards_of_epochs_differ(
    blocks: Seq<BlockView>,
    epoch: i64,
    answers: Seq<AnswerView>,
    other_blocks: Seq<BlockView>,
    other_epoch: i64,
    other_answers: Seq<AnswerView>,
    with_callback: bool,
)
    requires
        epoch != other_epoch,
        fitting(tipset_start(blocks, epoch, with_callback), answers),
        fitting(tipset_start(other_blocks, other_epoch, with_callback), other_answers),
    ensures
        ({
            let (step, _) = history(tipset_start(blocks, epoch, with_callback), answers);
            let (other, _) = history(
                tipset_start(other_blocks, other_epoch, with_callback),
                other_answers,
            );
            match (step, other) {
                (StepView::Execute(a, run), StepView::Execute(b, other_run)) => run.phase is Reward
                    && other_run.phase is Reward ==> a.message != b.message,
                _ => true,
            }
        }),
{
    law_reward_is_what_the_block_earned(blocks, epoch, with_callback, answers);
    law_reward_is_what_the_block_earned(other_blocks, other_epoch, with_callback, other_answers);
}

/// What is executed as a message from an account stands in a block of the tipset, just as it is
/// executed, and has a gas limit above zero. All else that is executed is implicit.
pub proof fn law_explicit_messages_stand_in_blocks(
    blocks: Seq<BlockView>,
    epoch: i64,
    with_callback: bool,
    answers: Seq<AnswerView>,
)
    requires
        fitting(tipset_start(blocks, epoch, with_callback), answers),
    ensures
        ({
            let (step, _) = history(tipset_start(blocks, epoch, with_callback), answers);
            step matches StepView::Execute(request, run) ==> {
                let block = run.progress.block;
                let next = run.progress.next;
                if run.phase is Message {
                    &&& request.kind == ApplyKind::Explicit
                    &&& block < blocks.len()
                    &&& next < blocks[block as int].messages.len()
                    &&& request == explicit_request_view(blocks[block as int].messages[next as int])
                    &&& request.message
                        == blocks[block as int].messages[next as int].message()
                    &&& request.raw_length
                        == blocks[block as int].messages[next as int].encoding()->Ok_0.len()
                    &&& request.message.gas_limit > 0
                } else {
                    request.kind == ApplyKind::Implicit
                }
            }
        }),
{
    lemma_accounted(blocks, epoch, with_callback, answers);
}

/// The callback is called only where there is one.
pub proof fn law_no_callback_is_not_called(
    blocks: Seq<BlockView>,
    epoch: i64,
    answers: Seq<AnswerView>,
)
    requires
        fitting(tipset_start(blocks, epoch, false), answers),
    ensures
        !(history(tipset_start(blocks, epoch, false), answers).0 is Notify),
{
    lemma_accounted(blocks, epoch, false, answers);
}

/// Where there is a callback, it is called with every result of which the interpreter makes
/// something: with that of each message of a block, before its receipt counts, and with those of
/// rewards and of the end of the epoch, without charges, unless they failed.
pub proof fn law_callback_sees_every_result(
    blocks: Seq<BlockView>,
    epoch: i64,
    answers: Seq<AnswerView>,
    ret: RetView,
)
    requires
        fitting(tipset_start(blocks, epoch, true), answers),
    ensures
        ({
            let (step, _) = history(tipset_start(blocks, epoch, true), answers);
            step matches StepView::Execute(request, run) ==> {
                let called = run.executed(Ok(ret));
                match run.phase {
                    ExecutingPhaseView::Message(cid) => {
                        let progress = run.progress;
                        &&& called matches StepView::Notify(notification, waiting)
                        &&& waiting.progress == progress
                        &&& notification.message == progress.messages()[progress.next as int]
                        &&& notification.message.cid() == Ok::<Seq<u8>, Seq<char>>(cid)
                        &&& notification.cid == cid
                        &&& notification.ret == ret
                    },
                    ExecutingPhaseView::Reward(message) => ret.error is None
                        && ret.receipt.exit_code == 0 ==> {
                        &&& called matches StepView::Notify(notification, _)
                        &&& notification.message == ChainMessageView::Unsigned(message)
                        &&& notification.cid == notification.message.cid()->Ok_0
                        &&& notification.ret == ret.uncharged()
                        &&& freed(ret, notification.ret)
                    },
                    ExecutingPhaseView::Cron(cron) => ret.error is None ==> {
                        &&& called matches StepView::Notify(notification, _)
                        &&& notification.message == ChainMessageView::Unsigned(cron.message)
                        &&& notification.cid == notification.message.cid()->Ok_0
                        &&& notification.ret == ret.uncharged()
                        &&& freed(ret, notification.ret)
                    },
                }
            }
        }),
{
    lemma_accounted(blocks, epoch, true, answers);
}

/// The answer reports no fault: the message of a block was executed, however it ended, a message
/// of the interpreter's own succeeded, and the callback took what it was shown.
pub open spec fn faultless(step: StepView, answer: AnswerView) -> bool {
    match (step, answer) {
        (StepView::Execute(_, run), AnswerView::Executed(Ok(ret))) => run.phase is Message || (
        ret.error is None && ret.receipt.exit_code == 0),
        (StepView::Notify(_, _), AnswerView::Notified(Ok(_))) => true,
        _ => false,
    }
}

/// No answer reports a fault.
pub open spec fn all_faultless(start: StepView, answers: Seq<AnswerView>) -> bool
    decreases answers.len(),
{
    answers.len() == 0 || {
        &&& all_faultless(start, answers.drop_last())
        &&& faultless(history(start, answers.drop_last()).0, answers.last())
    }
}

/// Every message of the blocks has a gas limit above zero.
pub open spec fn limited(blocks: Seq<BlockView>) -> bool {
    forall|b: int, m: int|
        0 <= b < blocks.len() && 0 <= m < blocks[b].messages.len() ==> (
        #[trigger] blocks[b].messages[m]).message().gas_limit > 0
}

/// Applying messages that have a gas limit fails only on one without an encoding.
proof fn lemma_advance_fails_on_encodings(progress: ProgressView)
    requires
        progress.in_range(),
        limited(progress.blocks),
    ensures
        progress.advance() matches StepView::Finish(outcome) ==> outcome matches
            OutcomeView::Failed(error) && error is Encoding,
    decreases progress.messages().len() - progress.next,
{
    if progress.block < progress.blocks.len() && progress.next < progress.messages().len() {
        let message = progress.blocks[progress.block as int].messages[progress.next as int];
        assert(message.message().gas_limit > 0);
        if let Ok(cid) = message.cid() {
            if progress.processed.contains(cid) {
                lemma_advance_fails_on_encodings(
                    ProgressView { next: progress.next + 1, ..progress },
                );
            }
        }
    }
}

/// Where every message has a gas limit and no answer reports a fault, the messages are applied and
/// the epoch is ended, unless a message or the parameters of a reward have no encoding.
pub proof fn law_only_faults_fail_a_tipset(
    blocks: Seq<BlockView>,
    epoch: i64,
    with_callback: bool,
    answers: Seq<AnswerView>,
)
    requires
        limited(blocks),
        fitting(tipset_start(blocks, epoch, with_callback), answers),
        all_faultless(tipset_start(blocks, epoch, with_callback), answers),
    ensures
        ({
            let (step, _) = history(tipset_start(blocks, epoch, with_callback), answers);
            step matches StepView::Finish(outcome) ==> match outcome {
                OutcomeView::Applied(_, cron_error) => cron_error is None,
                OutcomeView::Failed(error) => error is Encoding,
            }
        }),
{
    let start = tipset_start(blocks, epoch, with_callback);
    if answers.len() == 0 {
        lemma_advance_fails_on_encodings(unapplied(blocks, epoch, with_callback));
    } else {
        let (step, _) = history(start, answers.drop_last());
        lemma_accounted(blocks, epoch, with_callback, answers.drop_last());
        match (step, answers.last()) {
            (StepView::Execute(_, run), AnswerView::Executed(Ok(ret))) => {
                let progress = run.progress;
                match run.phase {
                    ExecutingPhaseView::Message(cid) => {
                        lemma_advance_fails_on_encodings(
                            progress.booked(cid, ret.receipt, ret.penalty, ret.miner_tip),
                        );
                    },
                    ExecutingPhaseView::Reward(_) => {
                        lemma_advance_fails_on_encodings(progress.next_block());
                    },
                    ExecutingPhaseView::Cron(_) => {},
                }
            },
            (StepView::Notify(_, run), AnswerView::Notified(Ok(_))) => {
                let progress = run.progress;
                match run.phase {
                    NotifyingPhaseView::Message(cid, receipt, penalty, tip) => {
                        lemma_advance_fails_on_encodings(
                            progress.booked(cid, receipt, penalty, tip),
                        );
                    },
                    NotifyingPhaseView::Reward => {
                        lemma_advance_fails_on_encodings(progress.next_block());
                    },
                    NotifyingPhaseView::Cron => {},
                }
            },
            _ => {},
        }
    }
}

/// The messages and the rewards of the blocks from `block` on.
pub open spec fn work_from(blocks: Seq<BlockView>, block: nat) -> nat
    decreases blocks.len() - block,
{
    if block < blocks.len() {
        blocks[block as int].messages.len() + 1 + work_from(blocks, block + 1)
    } else {
        0
    }
}

/// The messages and the rewards that are still to come.
pub open spec fn work_left(progress: ProgressView) -> int {
    if progress.block < progress.blocks.len() {
        progress.messages().len() - progress.next + 1 + work_from(
            progress.blocks,
            progress.block + 1,
        )
    } else {
        0
    }
}

/// How many answers there can still be: one of the executor and one of the callback for each
/// message, for each reward and for the end of the epoch.
pub open spec fn answers_left(step: StepView) -> int {
    match step {
        StepView::Execute(_, run) => 2 * (work_left(run.progress) + 1),
        StepView::Notify(_, run) => 2 * (work_left(run.progress) + 1) - 1,
        StepView::Finish(_) => 0,
    }
}

/// The messages of a tipset come to an end: there are no more than two answers for each message,
/// for each block and for the end of the epoch.
pub proof fn law_tipset_comes_to_an_end(
    blocks: Seq<BlockView>,
    epoch: i64,
    with_callback: bool,
    answers: Seq<AnswerView>,
)
    requires
        fitting(tipset_start(blocks, epoch, with_callback), answers),
    ensures
        answers.len() <= 2 * (work_from(blocks, 0) + 1),
{
    lemma_answers_left(blocks, epoch, with_callback, answers);
    lemma_accounted(blocks, epoch, with_callback, answers);
}

/// Each answer brings the end nearer.
proof fn lemma_answers_left(
    blocks: Seq<BlockView>,
    epoch: i64,
    with_callback: bool,
    answers: Seq<AnswerView>,
)
    requires
        fitting(tipset_start(blocks, epoch, with_callback), answers),
    ensures
        ({
            let (step, _) = history(tipset_start(blocks, epoch, with_callback), answers);
            &&& 0 <= answers_left(step)
            &&& answers.len() + answers_left(step) <= 2 * (work_from(blocks, 0) + 1)
        }),
    decreases answers.len(),
{
    let start = tipset_start(blocks, epoch, with_callback);
    if answers.len() == 0 {
        let progress = unapplied(blocks, epoch, with_callback);
        assert(reached(progress).to_set() =~= Set::<Seq<u8>>::empty());
        lemma_advance(progress);
    } else {
        lemma_answers_left(blocks, epoch, with_callback, answers.drop_last());
        lemma_accounted(blocks, epoch, with_callback, answers.drop_last());
        let (step, log) = history(start, answers.drop_last());
        match (step, answers.last()) {
            (StepView::Execute(_, run), AnswerView::Executed(Ok(ret))) => {
                let progress = run.progress;
                match run.phase {
                    ExecutingPhaseView::Message(cid) => {
                        lemma_booked_is_standing(
                            blocks,
                            epoch,
                            with_callback,
                            progress,
                            cid,
                            ret.receipt,
                            ret.penalty,
                            ret.miner_tip,
                        );
                        lemma_advance(
                            progress.booked(cid, ret.receipt, ret.penalty, ret.miner_tip),
                        );
                    },
                    ExecutingPhaseView::Reward(_) => {
                        lemma_next_block_is_standing(blocks, epoch, with_callback, progress);
                        lemma_advance(progress.next_block());
                    },
                    ExecutingPhaseView::Cron(_) => {},
                }
            },
            (StepView::Notify(_, run), AnswerView::Notified(Ok(_))) => {
                let progress = run.progress;
                match run.phase {
                    NotifyingPhaseView::Message(cid, receipt, penalty, tip) => {
                        lemma_booked_is_standing(
                            blocks,
                            epoch,
                            with_callback,
                            progress,
                            cid,
                            receipt,
                            penalty,
                            tip,
                        );
                        lemma_advance(progress.booked(cid, receipt, penalty, tip));
                    },
                    NotifyingPhaseView::Reward => {
                        lemma_next_block_is_standing(blocks, epoch, with_callback, progress);
                        lemma_advance(progress.next_block());
                    },
                    NotifyingPhaseView::Cron => {},
                }
            },
            _ => {},
        }
    }
}

/// The same progress, with a callback.
pub open spec fn watched(progress: ProgressView) -> ProgressView {
    ProgressView { with_callback: true, ..progress }
}

/// The same execution, with a callback.
pub open spec fn watched_run(run: ExecutingView) -> ExecutingView {
    ExecutingView {
        progress: watched(run.progress),
        phase: match run.phase {
            ExecutingPhaseView::Cron(cron) => ExecutingPhaseView::Cron(
                CronView { with_callback: true, ..cron },
            ),
            phase => phase,
        },
    }
}

/// The same step, with a callback.
pub open spec fn watched_step(step: StepView) -> StepView {
    match step {
        StepView::Execute(request, run) => StepView::Execute(request, watched_run(run)),
        StepView::Notify(notification, run) => StepView::Notify(
            notification,
            NotifyingView { progress: watched(run.progress), ..run },
        ),
        StepView::Finish(outcome) => StepView::Finish(outcome),
    }
}

/// The step that comes after the executor's answers, where a callback accepts each result.
pub open spec fn accepted_history(start: StepView, answers: Seq<AnswerView>) -> StepView
    decreases answers.len(),
{
    if answers.len() == 0 {
        start
    } else {
        match next_step(accepted_history(start, answers.drop_last()), answers.last()) {
            StepView::Notify(_, run) => run.notified(Ok(())),
            step => step,
        }
    }
}

/// Whether there is a callback does not change which message is next.
proof fn lemma_watched_advance(progress: ProgressView)
    requires
        !progress.with_callback,
    ensures
        watched(progress).advance() == watched_step(progress.advance()),
    decreases progress.messages().len() - progress.next,
{
    if progress.block < progress.blocks.len() && progress.next < progress.messages().len() {
        let message = progress.messages()[progress.next as int];
        if let Ok(cid) = message.cid() {
            if progress.processed.contains(cid) {
                let passed = ProgressView { next: progress.next + 1, ..progress };
                lemma_watched_advance(passed);
                assert(watched(passed) == (ProgressView {
                    next: progress.next + 1,
                    ..watched(progress)
                }));
            }
        }
    }
}

/// A callback that accepts every result changes nothing: the same messages are executed, in the
/// same order, with the same outcome as without a callback.
pub proof fn law_accepting_callback_changes_nothing(
    blocks: Seq<BlockView>,
    epoch: i64,
    answers: Seq<AnswerView>,
)
    requires
        fitting(tipset_start(blocks, epoch, false), answers),
    ensures
        accepted_history(tipset_start(blocks, epoch, true), answers) == watched_step(
            history(tipset_start(blocks, epoch, false), answers).0,
        ),
    decreases answers.len(),
{
    let start = tipset_start(blocks, epoch, false);
    if answers.len() == 0 {
        let progress = unapplied(blocks, epoch, false);
        assert(watched(progress) == unapplied(blocks, epoch, true));
        lemma_watched_advance(progress);
    } else {
        law_accepting_callback_changes_nothing(blocks, epoch, answers.drop_last());
        lemma_accounted(blocks, epoch, false, answers.drop_last());
        let (step, _) = history(start, answers.drop_last());
        if let StepView::Execute(_, run) = step {
            if let AnswerView::Executed(Ok(ret)) = answers.last() {
                let progress = run.progress;
                match run.phase {
                    ExecutingPhaseView::Message(cid) => {
                        let booked = progress.booked(
                            cid,
                            ret.receipt,
                            ret.penalty,
                            ret.miner_tip,
                        );
                        lemma_watched_advance(booked);
                        assert(watched(booked) == watched(progress).booked(
                            cid,
                            ret.receipt,
                            ret.penalty,
                            ret.miner_tip,
                        ));
                    },
                    ExecutingPhaseView::Reward(_) => {
                        lemma_watched_advance(progress.next_block());
                        assert(watched(progress.next_block()) == watched(progress).next_block());
                    },
                    ExecutingPhaseView::Cron(_) => {},
                }
            }
        }
    }
}

/// A copy of a message: the block and the place in it at which the copy stands.
#[verifier::ext_equal]
pub struct CopyView {
    pub block: int,
    pub place: int,
    pub message: ChainMessageView,
}

impl CopyView {
    /// The tipset with the copy added.
    pub open spec fn added(self, blocks: Seq<BlockView>) -> Seq<BlockView> {
        let block = blocks[self.block];
        blocks.update(
            self.block,
            BlockView { messages: block.messages.insert(self.place, self.message), ..block },
        )
    }

    /// The message is the one of which there is a copy, or has its identifier.
    pub open spec fn copies(self, message: ChainMessageView) -> bool {
        message == self.message || (self.message.cid() is Ok && message.cid()
            == self.message.cid())
    }

    /// The copy stands in the tipset, and the message that it copies stands before it.
    pub open spec fn repeats(self, blocks: Seq<BlockView>) -> bool {
        &&& 0 <= self.block < blocks.len()
        &&& 0 <= self.place <= blocks[self.block].messages.len()
        &&& {
            ||| exists|b: int, m: int|
                0 <= b < self.block && 0 <= m < blocks[b].messages.len() && self.copies(
                    #[trigger] blocks[b].messages[m],
                )
            ||| exists|m: int|
                0 <= m < self.place && self.copies(
                    #[trigger] blocks[self.block].messages[m],
                )
        }
    }

    /// Where the next message is behind the copy, its number is higher by one.
    spec fn next(self, progress: ProgressView) -> nat {
        if progress.block == self.block && progress.next >= self.place {
            progress.next + 1
        } else {
            progress.next
        }
    }

    /// The progress in the tipset with the copy, past the copy if the next message stands there.
    spec fn beside(self, progress: ProgressView) -> ProgressView {
        ProgressView {
            blocks: self.added(progress.blocks),
            next: self.next(progress),
            ..progress
        }
    }

    /// The step in the tipset with the copy.
    spec fn step(self, step: StepView) -> StepView {
        match step {
            StepView::Execute(request, run) => StepView::Execute(
                request,
                ExecutingView { progress: self.beside(run.progress), ..run },
            ),
            StepView::Notify(notification, run) => StepView::Notify(
                notification,
                NotifyingView { progress: self.beside(run.progress), ..run },
            ),
            StepView::Finish(outcome) => StepView::Finish(outcome),
        }
    }
}

/// The tipset with each of the copies added, one after another.
pub open spec fn with_copies(blocks: Seq<BlockView>, copies: Seq<CopyView>) -> Seq<BlockView>
    decreases copies.len(),
{
    if copies.len() == 0 {
        blocks
    } else {
        copies.last().added(with_copies(blocks, copies.drop_last()))
    }
}

/// Each of the copies repeats a message of the tipset to which it is added.
pub open spec fn all_repeat(blocks: Seq<BlockView>, copies: Seq<CopyView>) -> bool
    decreases copies.len(),
{
    copies.len() == 0 || {
        &&& all_repeat(blocks, copies.drop_last())
        &&& copies.last().repeats(with_copies(blocks, copies.drop_last()))
    }
}

/// The executor, the callback and the caller are asked and told the same at both steps.
pub open spec fn alike(one: StepView, other: StepView) -> bool {
    match (one, other) {
        (StepView::Execute(a, _), StepView::Execute(b, _)) => a == b,
        (StepView::Notify(a, _), StepView::Notify(b, _)) => a == b,
        (StepView::Finish(a), StepView::Finish(b)) => a == b,
        _ => false,
    }
}

/// Adding the copy leaves the other messages, in their order.
proof fn lemma_added(copy: CopyView, progress: ProgressView)
    requires
        copy.repeats(progress.blocks),
        progress.in_range(),
    ensures
        copy.added(progress.blocks).len() == progress.blocks.len(),
        progress.block < progress.blocks.len() ==> {
            let block = progress.blocks[progress.block as int];
            let with_copy = copy.added(progress.blocks)[progress.block as int];
            &&& with_copy.miner == block.miner
            &&& with_copy.win_count == block.win_count
            &&& progress.next == block.messages.len() ==> copy.next(progress)
                == with_copy.messages.len()
            &&& progress.next < block.messages.len() ==> copy.next(progress)
                < with_copy.messages.len() && with_copy.messages[copy.next(progress) as int]
                == block.messages[progress.next as int]
        },
{
}

/// From a progress at the place of the copy, the copy is passed over.
proof fn lemma_copy_is_passed_over(
    copy: CopyView,
    blocks: Seq<BlockView>,
    epoch: i64,
    with_callback: bool,
    progress: ProgressView,
)
    requires
        copy.repeats(blocks),
        standing(blocks, epoch, with_callback, progress),
        progress.block == copy.block,
        progress.next == copy.place,
    ensures
        (ProgressView { blocks: copy.added(blocks), ..progress }).advance() == copy.beside(
            progress,
        ).advance(),
{
    let cid = copy.message.cid()->Ok_0;
    assert(copy.message.cid() is Ok && occurs(blocks, progress.block, progress.next, cid)) by {
        if exists|m: int|
            0 <= m < copy.place && copy.copies(#[trigger] blocks[copy.block].messages[m]) {
            let m = choose|m: int|
                0 <= m < copy.place && copy.copies(#[trigger] blocks[copy.block].messages[m]);
            assert(blocks[progress.block as int].messages[m].cid() is Ok);
            assert(is_message(blocks, progress.block as int, m, cid));
        } else {
            let (b, m) = choose|b: int, m: int|
                0 <= b < copy.block && 0 <= m < blocks[b].messages.len() && copy.copies(
                    #[trigger] blocks[b].messages[m],
                );
            assert(blocks[b].messages[m].cid() is Ok);
            assert(is_message(blocks, b, m, cid));
        }
    }
    law_first_occurrences_are_the_messages(blocks, progress.block, progress.next, cid);
    assert(progress.processed.contains(cid));
    let at_copy = ProgressView { blocks: copy.added(blocks), ..progress };
    assert(at_copy.messages()[at_copy.next as int] == copy.message);
    assert(at_copy.next < at_copy.messages().len());
    assert(copy.beside(progress) == ProgressView { next: at_copy.next + 1, ..at_copy });
}

/// Applying messages leads to the same step with the copy as without it.
proof fn lemma_advance_beside(
    copy: CopyView,
    blocks: Seq<BlockView>,
    epoch: i64,
    with_callback: bool,
    progress: ProgressView,
)
    requires
        copy.repeats(blocks),
        standing(blocks, epoch, with_callback, progress),
    ensures
        copy.beside(progress).advance() == copy.step(progress.advance()),
    decreases progress.messages().len() - progress.next,
{
    lemma_added(copy, progress);
    let beside = copy.beside(progress);
    if progress.block < blocks.len() && progress.next < progress.messages().len() {
        let message = progress.messages()[progress.next as int];
        assert(beside.messages()[beside.next as int] == message);
        if let Ok(cid) = message.cid() {
            if progress.processed.contains(cid) {
                let passed = ProgressView { next: progress.next + 1, ..progress };
                lemma_repeated(blocks, progress.block, progress.next);
                assert(standing(blocks, epoch, with_callback, passed));
                lemma_advance_beside(copy, blocks, epoch, with_callback, passed);
                let next = ProgressView { next: beside.next + 1, ..beside };
                assert(beside.advance() == next.advance());
                if passed.block == copy.block && passed.next == copy.place {
                    lemma_copy_is_passed_over(copy, blocks, epoch, with_callback, passed);
                    assert(next == ProgressView { blocks: copy.added(blocks), ..passed });
                } else {
                    assert(next == copy.beside(passed));
                }
            }
        }
    }
}

/// Applying messages leads to the same step with the copy as without it, also where the copy is
/// the next message.
proof fn lemma_advance_with_copy(
    copy: CopyView,
    blocks: Seq<BlockView>,
    epoch: i64,
    with_callback: bool,
    progress: ProgressView,
    beside: ProgressView,
)
    requires
        copy.repeats(blocks),
        standing(blocks, epoch, with_callback, progress),
        beside == copy.beside(progress) || (progress.block == copy.block && progress.next
            == copy.place && beside == (ProgressView { blocks: copy.added(blocks), ..progress })),
    ensures
        beside.advance() == copy.step(progress.advance()),
{
    lemma_advance_beside(copy, blocks, epoch, with_callback, progress);
    if beside != copy.beside(progress) {
        lemma_copy_is_passed_over(copy, blocks, epoch, with_callback, progress);
    }
}

/// A copy that stands behind the message that it copies changes nothing: the same answers lead to
/// the same steps.
proof fn lemma_one_copy(
    blocks: Seq<BlockView>,
    copy: CopyView,
    epoch: i64,
    with_callback: bool,
    answers: Seq<AnswerView>,
)
    requires
        copy.repeats(blocks),
        fitting(tipset_start(blocks, epoch, with_callback), answers),
    ensures
        ({
            let start = tipset_start(blocks, epoch, with_callback);
            let with_copy = tipset_start(copy.added(blocks), epoch, with_callback);
            &&& fitting(with_copy, answers)
            &&& history(with_copy, answers).0 == copy.step(history(start, answers).0)
            &&& history(with_copy, answers).1 == history(start, answers).1
        }),
    decreases answers.len(),
{
    let start = tipset_start(blocks, epoch, with_callback);
    if answers.len() == 0 {
        let progress = unapplied(blocks, epoch, with_callback);
        assert(reached(progress).to_set() =~= Set::<Seq<u8>>::empty());
        lemma_advance_with_copy(
            copy,
            blocks,
            epoch,
            with_callback,
            progress,
            unapplied(copy.added(blocks), epoch, with_callback),
        );
    } else {
        lemma_one_copy(blocks, copy, epoch, with_callback, answers.drop_last());
        lemma_accounted(blocks, epoch, with_callback, answers.drop_last());
        let (step, log) = history(start, answers.drop_last());
        lemma_step_with_copy(blocks, copy, epoch, with_callback, step, log, answers.last());
    }
}

/// An answer leads to the same step with the copy as without it.
proof fn lemma_step_with_copy(
    blocks: Seq<BlockView>,
    copy: CopyView,
    epoch: i64,
    with_callback: bool,
    step: StepView,
    log: Log,
    answer: AnswerView,
)
    requires
        copy.repeats(blocks),
        accounted(blocks, epoch, with_callback, step, log),
        fits(step, answer),
    ensures
        next_step(copy.step(step), answer) == copy.step(next_step(step, answer)),
{
    match (step, answer) {
        (StepView::Execute(_, run), AnswerView::Executed(answer)) => {
            let progress = run.progress;
            lemma_added(copy, progress);
            if let Ok(ret) = answer {
                match run.phase {
                    ExecutingPhaseView::Message(cid) => {
                        if !with_callback {
                            lemma_booked_with_copy(
                                blocks,
                                copy,
                                epoch,
                                with_callback,
                                progress,
                                cid,
                                ret.receipt,
                                ret.penalty,
                                ret.miner_tip,
                            );
                        }
                    },
                    ExecutingPhaseView::Reward(_) => {
                        lemma_next_block_with_copy(blocks, copy, epoch, with_callback, progress);
                    },
                    ExecutingPhaseView::Cron(_) => {},
                }
            }
        },
        (StepView::Notify(_, run), AnswerView::Notified(answer)) => {
            let progress = run.progress;
            match run.phase {
                NotifyingPhaseView::Message(cid, receipt, penalty, tip) => {
                    lemma_booked_with_copy(
                        blocks,
                        copy,
                        epoch,
                        with_callback,
                        progress,
                        cid,
                        receipt,
                        penalty,
                        tip,
                    );
                },
                NotifyingPhaseView::Reward => {
                    lemma_next_block_with_copy(blocks, copy, epoch, with_callback, progress);
                },
                NotifyingPhaseView::Cron => {},
            }
        },
        _ => {},
    }
}

/// Booking a result leads to the same step with the copy as without it.
proof fn lemma_booked_with_copy(
    blocks: Seq<BlockView>,
    copy: CopyView,
    epoch: i64,
    with_callback: bool,
    progress: ProgressView,
    cid: Seq<u8>,
    receipt: ReceiptView,
    penalty: int,
    tip: int,
)
    requires
        copy.repeats(blocks),
        standing(blocks, epoch, with_callback, progress),
        progress.block < blocks.len(),
        progress.next < progress.messages().len(),
        progress.messages()[progress.next as int].cid() == Ok::<Seq<u8>, Seq<char>>(cid),
        reached(progress).push(cid).no_duplicates(),
    ensures
        copy.beside(progress).booked(cid, receipt, penalty, tip).advance() == copy.step(
            progress.booked(cid, receipt, penalty, tip).advance(),
        ),
{
    let booked = progress.booked(cid, receipt, penalty, tip);
    lemma_booked_is_standing(
        blocks,
        epoch,
        with_callback,
        progress,
        cid,
        receipt,
        penalty,
        tip,
    );
    lemma_advance_with_copy(
        copy,
        blocks,
        epoch,
        with_callback,
        booked,
        copy.beside(progress).booked(cid, receipt, penalty, tip),
    );
}

/// Going on to the next block leads to the same step with the copy as without it.
proof fn lemma_next_block_with_copy(
    blocks: Seq<BlockView>,
    copy: CopyView,
    epoch: i64,
    with_callback: bool,
    progress: ProgressView,
)
    requires
        copy.repeats(blocks),
        standing(blocks, epoch, with_callback, progress),
        progress.block < blocks.len(),
        progress.next == progress.messages().len(),
    ensures
        copy.beside(progress).next_block().advance() == copy.step(progress.next_block().advance()),
{
    lemma_next_block_is_standing(blocks, epoch, with_callback, progress);
    lemma_advance_with_copy(
        copy,
        blocks,
        epoch,
        with_callback,
        progress.next_block(),
        copy.beside(progress).next_block(),
    );
}

/// Copies of messages, each added behind the message or behind another one with its identifier, in
/// the same block or in a later one, change nothing: whatever the executor and the callback
/// answer, they are asked the same, the same messages are executed and the same blocks rewarded,
/// and the outcome is the same.
pub proof fn law_copies_change_nothing(
    blocks: Seq<BlockView>,
    copies: Seq<CopyView>,
    epoch: i64,
    with_callback: bool,
    answers: Seq<AnswerView>,
)
    requires
        all_repeat(blocks, copies),
        fitting(tipset_start(blocks, epoch, with_callback), answers),
    ensures
        ({
            let start = tipset_start(blocks, epoch, with_callback);
            let repeated = tipset_start(with_copies(blocks, copies), epoch, with_callback);
            &&& fitting(repeated, answers)
            &&& alike(history(start, answers).0, history(repeated, answers).0)
            &&& history(start, answers).1 == history(repeated, answers).1
        }),
    decreases copies.len(),
{
    if copies.len() > 0 {
        let earlier = copies.drop_last();
        law_copies_change_nothing(blocks, earlier, epoch, with_callback, answers);
        lemma_one_copy(
            with_copies(blocks, earlier),
            copies.last(),
            epoch,
            with_callback,
            answers,
        );
    }
}

} // verus!
