//! What holds of each step in which the messages of a tipset, or the end of an epoch, are applied.

use crate::cron::{cron_notified, cron_view, CronStepView, CronView};
use crate::error::ErrorView;
use crate::execution::ApplyKind;
use crate::identifiers::block_cid;
use crate::message::{award_params_encoding, message_encoding, BlockView, ChainMessageView};
use crate::receipt::RetView;
use crate::tipset::{
    tipset_start, unapplied, ExecutingPhaseView, ExecutingView, NotifyingPhaseView, NotifyingView,
    OutcomeView, ProgressView, StepView,
};
use crate::value_laws::{awards, ends_epoch, freed, law_cron_message, law_reward_message};
use vstd::prelude::*;

verus! {

/// The message with which an epoch ends is the cron message of that epoch, which is handed to the
/// executor as an implicit one.
pub proof fn law_epoch_ends_with_its_message(epoch: i64, with_callback: bool)
    ensures
        ({
            let run = cron_view(epoch, with_callback);
            &&& run.with_callback == with_callback
            &&& ends_epoch(run.message, epoch)
            &&& run.request().message == run.message
            &&& run.request().kind == ApplyKind::Implicit
            &&& run.request().raw_length == message_encoding(run.message)->Ok_0.len()
        }),
{
    law_cron_message(epoch);
}

/// An epoch cannot be ended where the executor fails, or where the actor does, whatever its exit
/// code and whether or not there is a callback: the callback is then not called.
pub proof fn law_cron_fails_with_its_error(run: CronView, ret: RetView, error: Seq<char>)
    ensures
        run.executed(Err(error)) == CronStepView::Finish(Err(ErrorView::Message(error))),
        ret.error == Some(error) ==> run.executed(Ok(ret)) == CronStepView::Finish(
            Err(ErrorView::Cron(error)),
        ),
{
}

/// The callback is called, or the epoch ended without one, only where the message that ends the
/// epoch was executed without an error, and then always, whatever the exit code.
pub proof fn law_cron_succeeds_without_error(run: CronView, answer: Result<RetView, Seq<char>>)
    ensures
        run.executed(answer) is Notify <==> {
            &&& run.with_callback
            &&& answer is Ok
            &&& answer->Ok_0.error is None
        },
        run.executed(answer) == CronStepView::Finish(Ok(())) <==> {
            &&& !run.with_callback
            &&& answer is Ok
            &&& answer->Ok_0.error is None
        },
        run.executed(answer) matches CronStepView::Notify(notification) ==> {
            &&& notification.message == ChainMessageView::Unsigned(run.message)
            &&& message_encoding(run.message) is Ok ==> notification.cid == block_cid(
                message_encoding(run.message)->Ok_0,
            )
            &&& freed(answer->Ok_0, notification.ret)
        },
{
}

/// The callback has the last word on whether an epoch was ended.
pub proof fn law_cron_takes_the_callbacks_word(error: Seq<char>)
    ensures
        cron_notified(Ok(())) == Ok::<(), ErrorView>(()),
        cron_notified(Err(error)) == Err::<(), ErrorView>(ErrorView::Callback(error)),
{
}

/// A tipset begins with its first block, nothing applied and nothing earned.
pub proof fn law_tipset_begins_with_nothing(
    blocks: Seq<BlockView>,
    epoch: i64,
    with_callback: bool,
)
    ensures
        ({
            let start = unapplied(blocks, epoch, with_callback);
            &&& start.blocks == blocks
            &&& start.epoch == epoch
            &&& start.with_callback == with_callback
            &&& start.receipts.len() == 0
            &&& forall|cid: Seq<u8>| !(#[trigger] start.processed.contains(cid))
            &&& start.block == 0
            &&& start.next == 0
            &&& start.penalty == 0
            &&& start.gas_reward == 0
            &&& tipset_start(blocks, epoch, with_callback) == start.advance()
        }),
{
}

/// Messages whose identifiers were processed are passed over, and change nothing but the place of
/// the next message.
proof fn lemma_passed_over(progress: ProgressView, place: nat)
    requires
        progress.block < progress.blocks.len(),
        progress.next <= place <= progress.blocks[progress.block as int].messages.len(),
        forall|m: int|
            progress.next <= m < place ==> {
                let cid = (#[trigger] progress.blocks[progress.block as int].messages[m]).cid();
                cid is Ok && progress.processed.contains(cid->Ok_0)
            },
    ensures
        progress.advance() == (ProgressView { next: place, ..progress }).advance(),
    decreases place - progress.next,
{
    if progress.next < place {
        let message = progress.blocks[progress.block as int].messages[progress.next as int];
        assert(message.cid() is Ok && progress.processed.contains(message.cid()->Ok_0));
        let passed = ProgressView { next: progress.next + 1, ..progress };
        lemma_passed_over(passed, place);
    } else {
        assert(progress == ProgressView { next: place, ..progress });
    }
}

/// The message at `place` is the next one of its block whose identifier was not processed: where
/// its gas limit is above zero it is handed to the executor as it stands in the block, and
/// otherwise the tipset fails, as it does where the message has no identifier. Nothing is booked
/// before the executor has answered.
pub proof fn law_next_new_message_is_executed(progress: ProgressView, place: nat)
    requires
        progress.block < progress.blocks.len(),
        progress.next <= place < progress.blocks[progress.block as int].messages.len(),
        forall|m: int|
            progress.next <= m < place ==> {
                let cid = (#[trigger] progress.blocks[progress.block as int].messages[m]).cid();
                cid is Ok && progress.processed.contains(cid->Ok_0)
            },
        ({
            let cid = progress.blocks[progress.block as int].messages[place as int].cid();
            cid is Ok ==> !progress.processed.contains(cid->Ok_0)
        }),
    ensures
        ({
            let message = progress.blocks[progress.block as int].messages[place as int];
            let step = progress.advance();
            match message.cid() {
                Err(error) => step == StepView::Finish(
                    OutcomeView::Failed(ErrorView::Encoding(error)),
                ),
                Ok(cid) => {
                    &&& message.message().gas_limit == 0 ==> step == StepView::Finish(
                        OutcomeView::Failed(ErrorView::Message("Message has no gas limit set"@)),
                    )
                    &&& message.message().gas_limit < 0 ==> step == StepView::Finish(
                        OutcomeView::Failed(ErrorView::Message("Message has negative gas limit"@)),
                    )
                    &&& message.message().gas_limit > 0 ==> {
                        &&& step matches StepView::Execute(request, run)
                        &&& request.message == message.message()
                        &&& request.kind == ApplyKind::Explicit
                        &&& request.raw_length == message.encoding()->Ok_0.len()
                        &&& run.phase == ExecutingPhaseView::Message(cid)
                        &&& run.progress == ProgressView { next: place, ..progress }
                    }
                },
            }
        }),
{
    lemma_passed_over(progress, place);
}

/// Where every further message of the block was processed before, the block's miner is rewarded
/// with what the block's messages earned and for the block's wins, unless the parameters of the
/// reward have no encoding.
pub proof fn law_finished_block_is_rewarded(progress: ProgressView)
    requires
        progress.block < progress.blocks.len(),
        progress.next <= progress.blocks[progress.block as int].messages.len(),
        forall|m: int|
            progress.next <= m < progress.blocks[progress.block as int].messages.len() ==> {
                let cid = (#[trigger] progress.blocks[progress.block as int].messages[m]).cid();
                cid is Ok && progress.processed.contains(cid->Ok_0)
            },
    ensures
        ({
            let block = progress.blocks[progress.block as int];
            let step = progress.advance();
            match award_params_encoding(
                block.miner,
                progress.penalty,
                progress.gas_reward,
                block.win_count,
            ) {
                Err(error) => step == StepView::Finish(
                    OutcomeView::Failed(ErrorView::Encoding(error)),
                ),
                Ok(params) => {
                    &&& step matches StepView::Execute(request, run)
                    &&& awards(request.message, progress.epoch, params)
                    &&& request.kind == ApplyKind::Implicit
                    &&& request.raw_length == message_encoding(request.message)->Ok_0.len()
                    &&& run.phase == ExecutingPhaseView::Reward(request.message)
                    &&& run.progress == ProgressView { next: block.messages.len(), ..progress }
                },
            }
        }),
{
    let block = progress.blocks[progress.block as int];
    lemma_passed_over(progress, block.messages.len());
    if let Ok(params) = award_params_encoding(
        block.miner,
        progress.penalty,
        progress.gas_reward,
        block.win_count,
    ) {
        law_reward_message(progress.epoch, params);
    }
}

/// Behind the last block the epoch ends.
pub proof fn law_epoch_ends_behind_the_last_block(progress: ProgressView)
    requires
        progress.block == progress.blocks.len(),
    ensures
        ({
            &&& progress.advance() matches StepView::Execute(request, run)
            &&& ends_epoch(request.message, progress.epoch)
            &&& request.kind == ApplyKind::Implicit
            &&& request.raw_length == message_encoding(request.message)->Ok_0.len()
            &&& run.phase matches ExecutingPhaseView::Cron(cron)
            &&& cron.message == request.message
            &&& cron.with_callback == progress.with_callback
            &&& run.progress == progress
        }),
{
    law_cron_message(progress.epoch);
}

/// The progress once the result of the next message has been booked: its receipt behind the
/// others, its identifier among those that were processed, and its penalty and its tip with those
/// of its block.
pub open spec fn counts(
    before: ProgressView,
    after: ProgressView,
    cid: Seq<u8>,
    ret: RetView,
) -> bool {
    &&& after.blocks == before.blocks
    &&& after.epoch == before.epoch
    &&& after.with_callback == before.with_callback
    &&& after.receipts == before.receipts + seq![ret.receipt]
    &&& forall|other: Seq<u8>| #[trigger]
        after.processed.contains(other) <==> before.processed.contains(other) || other == cid
    &&& after.block == before.block
    &&& after.next == before.next + 1
    &&& after.penalty - before.penalty == ret.penalty
    &&& after.gas_reward - before.gas_reward == ret.miner_tip
}

/// The progress at the beginning of the next block, which has earned nothing.
pub open spec fn turns_to_the_next_block(before: ProgressView, after: ProgressView) -> bool {
    &&& after.blocks == before.blocks
    &&& after.epoch == before.epoch
    &&& after.with_callback == before.with_callback
    &&& after.receipts == before.receipts
    &&& after.processed == before.processed
    &&& after.block == before.block + 1
    &&& after.next == 0
    &&& after.penalty == 0
    &&& after.gas_reward == 0
}

/// Only an error of the executor on a message of a block fails the tipset: a message that was
/// executed counts, however it ended, at once or once the callback has seen it.
pub proof fn law_executed_message_counts(
    progress: ProgressView,
    after: ProgressView,
    cid: Seq<u8>,
    ret: RetView,
    error: Seq<char>,
)
    requires
        counts(progress, after, cid, ret),
    ensures
        ({
            let run = ExecutingView { progress, phase: ExecutingPhaseView::Message(cid) };
            &&& run.executed(Err(error)) == StepView::Finish(
                OutcomeView::Failed(ErrorView::Message(error)),
            )
            &&& !progress.with_callback ==> run.executed(Ok(ret)) == after.advance()
            &&& progress.with_callback ==> {
                &&& run.executed(Ok(ret)) matches StepView::Notify(notification, waiting)
                &&& notification.cid == cid
                &&& notification.message
                    == progress.blocks[progress.block as int].messages[progress.next as int]
                &&& notification.ret == ret
                &&& waiting.progress == progress
                &&& waiting.notified(Ok(())) == after.advance()
                &&& waiting.notified(Err(error)) == StepView::Finish(
                    OutcomeView::Failed(ErrorView::Callback(error)),
                )
            }
        }),
{
    assert(after.receipts =~= progress.receipts.push(ret.receipt));
    assert(after.processed =~= progress.processed.insert(cid));
    assert(after == progress.booked(cid, ret.receipt, ret.penalty, ret.miner_tip));
}

/// A reward fails the tipset where the executor fails, where the reward actor does, or where the
/// exit code is another than that of success. Otherwise the next block follows, at once or once
/// the callback has seen the result, for which nothing is charged.
pub proof fn law_executed_reward_leads_on(
    progress: ProgressView,
    after: ProgressView,
    run: ExecutingView,
    ret: RetView,
    error: Seq<char>,
)
    requires
        run.progress == progress,
        run.phase is Reward,
        turns_to_the_next_block(progress, after),
    ensures
        run.executed(Err(error)) == StepView::Finish(
            OutcomeView::Failed(ErrorView::Message(error)),
        ),
        ret.error == Some(error) ==> run.executed(Ok(ret)) == StepView::Finish(
            OutcomeView::Failed(
                ErrorView::Reward(progress.blocks[progress.block as int].miner, error),
            ),
        ),
        ret.error is None && ret.receipt.exit_code != 0 ==> run.executed(Ok(ret))
            == StepView::Finish(
            OutcomeView::Failed(ErrorView::RewardExit(ret.receipt.exit_code)),
        ),
        ret.error is None && ret.receipt.exit_code == 0 && !progress.with_callback
            ==> run.executed(Ok(ret)) == after.advance(),
        ret.error is None && ret.receipt.exit_code == 0 && progress.with_callback ==> {
            let message = run.phase->Reward_0;
            &&& run.executed(Ok(ret)) matches StepView::Notify(notification, waiting)
            &&& notification.message == ChainMessageView::Unsigned(message)
            &&& message_encoding(message) is Ok ==> notification.cid == block_cid(
                message_encoding(message)->Ok_0,
            )
            &&& freed(ret, notification.ret)
            &&& waiting.progress == progress
            &&& waiting.notified(Ok(())) == after.advance()
            &&& waiting.notified(Err(error)) == StepView::Finish(
                OutcomeView::Failed(ErrorView::Callback(error)),
            )
        },
{
    assert(after == progress.next_block());
}

/// Once the epoch is being ended, the outcome holds the receipts, and the error for which the epoch
/// could not be ended: that of the executor, that of the actor, whatever its exit code, or that of
/// the callback, which is called only where there was none before.
pub proof fn law_executed_cron_ends_the_tipset(run: ExecutingView, ret: RetView, error: Seq<char>)
    requires
        run.phase is Cron,
    ensures
        ({
            let receipts = run.progress.receipts;
            let cron = run.phase->Cron_0;
            &&& run.executed(Err(error)) == StepView::Finish(
                OutcomeView::Applied(receipts, Some(ErrorView::Message(error))),
            )
            &&& ret.error == Some(error) ==> run.executed(Ok(ret)) == StepView::Finish(
                OutcomeView::Applied(receipts, Some(ErrorView::Cron(error))),
            )
            &&& ret.error is None && !cron.with_callback ==> run.executed(Ok(ret))
                == StepView::Finish(OutcomeView::Applied(receipts, None))
            &&& ret.error is None && cron.with_callback ==> {
                &&& run.executed(Ok(ret)) matches StepView::Notify(notification, waiting)
                &&& notification.message == ChainMessageView::Unsigned(cron.message)
                &&& message_encoding(cron.message) is Ok ==> notification.cid == block_cid(
                    message_encoding(cron.message)->Ok_0,
                )
                &&& freed(ret, notification.ret)
                &&& waiting.notified(Ok(())) == StepView::Finish(
                    OutcomeView::Applied(receipts, None),
                )
                &&& waiting.notified(Err(error)) == StepView::Finish(
                    OutcomeView::Applied(receipts, Some(ErrorView::Callback(error))),
                )
            }
        }),
{
}

/// What the callback answers decides whether what it was shown counts.
pub proof fn law_callback_decides(
    progress: ProgressView,
    after: ProgressView,
    run: NotifyingView,
    cid: Seq<u8>,
    ret: RetView,
    error: Seq<char>,
)
    requires
        run.progress == progress,
    ensures
        !(run.phase is Cron) ==> run.notified(Err(error)) == StepView::Finish(
            OutcomeView::Failed(ErrorView::Callback(error)),
        ),
        run.phase == NotifyingPhaseView::Message(cid, ret.receipt, ret.penalty, ret.miner_tip)
            && counts(progress, after, cid, ret) ==> run.notified(Ok(())) == after.advance(),
        run.phase is Reward && turns_to_the_next_block(progress, after) ==> run.notified(Ok(()))
            == after.advance(),
        run.phase is Cron ==> run.notified(Ok(())) == StepView::Finish(
            OutcomeView::Applied(progress.receipts, None),
        ),
        run.phase is Cron ==> run.notified(Err(error)) == StepView::Finish(
            OutcomeView::Applied(progress.receipts, Some(ErrorView::Callback(error))),
        ),
{
    if counts(progress, after, cid, ret) {
        assert(after.receipts =~= progress.receipts.push(ret.receipt));
        assert(after.processed =~= progress.processed.insert(cid));
        assert(after == progress.booked(cid, ret.receipt, ret.penalty, ret.miner_tip));
    }
    if turns_to_the_next_block(progress, after) {
        assert(after == progress.next_block());
    }
}

} // verus!
