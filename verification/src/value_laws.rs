//! What holds of the values that the interpreter makes and takes.

use crate::amount::encodable_amount;
use crate::cron::{attempt_view, notified_view, CronStep, CronStepView, Notification};
use crate::error::{address_text, exit_code_text, reward_text, ApplyError, ErrorView};
use crate::execution::{
    applied_view, executed_view, explicit_request_view, gas_limit_error, implicit_request_view,
    implicit_result_view, ApplyKind, ExecutionRequest,
};
use crate::identifiers::{blake2b_256, block_cid, id_address, uleb128, Cid};
use crate::message::{
    bytes_view, cid_view, cron_message_view, encoding_cid, message_encoding, reward_message_view,
    BlockMessages, ChainMessage, ChainMessageView, MessageView, SignedView, UnsignedMessage,
};
use crate::receipt::{receipts_view, texts_view, ApplyRet, ExecutorRet, Receipt, RetView};
use crate::tipset::{blocks_view, OutcomeView, StepView, TipsetOutcome, TipsetStep};
use crate::vm::{amount_view, MachineConfig};
use vstd::arithmetic::power2::pow2;
use vstd::prelude::*;
use vstd::std_specs::cmp::PartialEqSpec;

verus! {

/// The number that bytes stand for, seven bits of it in each byte, the low ones first.
pub open spec fn unsigned_value(bytes: Seq<u8>) -> int
    decreases bytes.len(),
{
    if bytes.len() == 0 {
        0
    } else {
        bytes[0] % 128 + 128 * unsigned_value(bytes.drop_first())
    }
}

/// A number can be read back from its unsigned LEB128 form, whose last byte is the only one below
/// 128.
pub proof fn law_uleb128_is_read_back(n: nat)
    ensures
        uleb128(n).len() > 0,
        unsigned_value(uleb128(n)) == n,
        uleb128(n).last() < 128,
        forall|i: int| 0 <= i < uleb128(n).len() - 1 ==> (#[trigger] uleb128(n)[i]) >= 128,
    decreases n,
{
    let bytes = uleb128(n);
    if n < 128 {
        assert(bytes =~= seq![n as u8]);
        assert(unsigned_value(bytes.drop_first()) == 0);
    } else {
        law_uleb128_is_read_back(n / 128);
        let low = (n % 128 + 128) as u8;
        let rest = uleb128(n / 128);
        assert(bytes =~= seq![low] + rest);
        assert(bytes.drop_first() =~= rest);
        assert(bytes.last() == rest.last());
        assert forall|i: int| 0 <= i < bytes.len() - 1 implies (#[trigger] bytes[i]) >= 128 by {
            if i > 0 {
                assert(bytes[i] == rest[i - 1]);
            }
        }
    }
}

/// An actor's address is a zero and the actor's number. Different actors have different addresses.
pub proof fn law_address_holds_the_number(id: nat, other: nat)
    ensures
        id_address(id)[0] == 0,
        unsigned_value(id_address(id).drop_first()) == id,
        id_address(id) == id_address(other) ==> id == other,
{
    law_uleb128_is_read_back(id);
    law_uleb128_is_read_back(other);
    assert(id_address(id).drop_first() =~= uleb128(id));
    assert(id_address(other).drop_first() =~= uleb128(other));
}

/// A block is identified by the digest of all of its data: the identifier is a fixed head of six
/// bytes and the digest.
pub proof fn law_block_is_identified_by_its_digest(data: Seq<u8>)
    ensures
        block_cid(data).len() == 6 + blake2b_256(data).len(),
        block_cid(data).skip(6) == blake2b_256(data),
        block_cid(data).take(6) == seq![0x01u8, 0x71u8, 0xa0u8, 0xe4u8, 0x02u8, 0x20u8],
{
    assert(block_cid(data).skip(6) =~= blake2b_256(data));
}

/// An amount of up to 127 bytes of magnitude can be encoded, of either sign, and no other.
pub proof fn law_amounts_are_bounded(amount: int)
    ensures
        encodable_amount(amount) <==> amount < pow2(1016) && -amount < pow2(1016),
        encodable_amount(amount) <==> encodable_amount(-amount),
{
}

/// The sequence number with which the interpreter sends a message at an epoch.
pub open spec fn numbered(sequence: u64, epoch: i64) -> bool {
    sequence == if epoch >= 0 {
        epoch as int
    } else {
        epoch + 0x1_0000_0000_0000_0000
    }
}

/// The message moves no funds, pays for no gas and comes from the system actor.
pub open spec fn from_the_system(message: MessageView) -> bool {
    &&& message.version == 0
    &&& message.from == seq![0u8, 0u8]
    &&& message.value == 0
    &&& message.gas_fee_cap == 0
    &&& message.gas_premium == 0
}

/// The message calls the reward actor's second method with the parameters.
pub open spec fn awards(message: MessageView, epoch: i64, params: Seq<u8>) -> bool {
    &&& from_the_system(message)
    &&& message.to == seq![0u8, 2u8]
    &&& numbered(message.sequence, epoch)
    &&& message.method_num == 2
    &&& message.params == params
    &&& message.gas_limit == 0x4000_0000
}

/// The message calls the cron actor's second method without parameters.
pub open spec fn ends_epoch(message: MessageView, epoch: i64) -> bool {
    &&& from_the_system(message)
    &&& message.to == seq![0u8, 3u8]
    &&& numbered(message.sequence, epoch)
    &&& message.method_num == 2
    &&& message.params.len() == 0
    &&& message.gas_limit == 100_000_000_000_000
}

/// The message of a block reward carries the epoch as its sequence number and the parameters as
/// they are.
pub proof fn law_reward_message(epoch: i64, params: Seq<u8>)
    ensures
        awards(reward_message_view(epoch, params), epoch, params),
{
    let message = reward_message_view(epoch, params);
    assert(message.from =~= seq![0u8, 0u8]);
    assert(message.to =~= seq![0u8, 2u8]);
}

/// The message that ends an epoch carries the epoch as its sequence number.
pub proof fn law_cron_message(epoch: i64)
    ensures
        ends_epoch(cron_message_view(epoch), epoch),
{
    let message = cron_message_view(epoch);
    assert(message.from =~= seq![0u8, 0u8]);
    assert(message.to =~= seq![0u8, 3u8]);
}

/// Rewards of different epochs, or with different parameters, are different messages; so are the
/// ends of different epochs; and no reward ends an epoch.
pub proof fn law_messages_of_epochs_differ(
    epoch: i64,
    other: i64,
    params: Seq<u8>,
    other_params: Seq<u8>,
)
    ensures
        reward_message_view(epoch, params) == reward_message_view(other, other_params) <==> epoch
            == other && params == other_params,
        cron_message_view(epoch) == cron_message_view(other) <==> epoch == other,
        reward_message_view(epoch, params) != cron_message_view(other),
{
    law_reward_message(epoch, params);
    law_reward_message(other, other_params);
    law_cron_message(epoch);
    law_cron_message(other);
    assert(seq![0u8, 2u8][1] != seq![0u8, 3u8][1]);
}

/// A message is refused for its gas limit exactly where the limit is not above zero.
pub proof fn law_gas_limit_is_checked(gas_limit: int)
    ensures
        gas_limit > 0 <==> gas_limit_error(gas_limit) is None,
        gas_limit == 0 ==> gas_limit_error(gas_limit) == Some("Message has no gas limit set"@),
        gas_limit < 0 ==> gas_limit_error(gas_limit) == Some("Message has negative gas limit"@),
{
}

/// The executor is handed a message of a block as it stands there, without its signature, and with
/// the length that it has on chain.
pub proof fn law_explicit_request(message: ChainMessageView)
    ensures
        explicit_request_view(message).message == match message {
            ChainMessageView::Unsigned(plain) => plain,
            ChainMessageView::Signed(signed) => signed.message,
        },
        explicit_request_view(message).kind == ApplyKind::Explicit,
        explicit_request_view(message).raw_length == match message {
            ChainMessageView::Unsigned(plain) => message_encoding(plain)->Ok_0.len(),
            ChainMessageView::Signed(signed) => signed.encoding->Ok_0.len(),
        },
{
}

/// The executor is handed a message of the interpreter's own as it is. Different messages make
/// different requests.
pub proof fn law_implicit_request(message: MessageView, other: MessageView)
    ensures
        implicit_request_view(message).message == message,
        implicit_request_view(message).kind == ApplyKind::Implicit,
        implicit_request_view(message).raw_length == message_encoding(message)->Ok_0.len(),
        implicit_request_view(message) == implicit_request_view(other) <==> message == other,
{
}

/// What a message of a block says of itself: what was signed, and for a signed message the bytes
/// and the identifier that it comes with.
pub proof fn law_chain_message_parts(plain: MessageView, signed: SignedView)
    ensures
        ChainMessageView::Unsigned(plain).message() == plain,
        ChainMessageView::Unsigned(plain).encoding() == message_encoding(plain),
        ChainMessageView::Unsigned(plain).encodable() <==> {
            &&& encodable_amount(plain.value)
            &&& encodable_amount(plain.gas_fee_cap)
            &&& encodable_amount(plain.gas_premium)
        },
        message_encoding(plain) matches Ok(bytes) ==> ChainMessageView::Unsigned(plain).cid()
            == Ok::<Seq<u8>, Seq<char>>(block_cid(bytes)),
        message_encoding(plain) matches Err(error) ==> ChainMessageView::Unsigned(plain).cid()
            == Err::<Seq<u8>, Seq<char>>(error),
        ChainMessageView::Signed(signed).message() == signed.message,
        ChainMessageView::Signed(signed).encoding() == signed.encoding,
        ChainMessageView::Signed(signed).cid() == signed.cid,
        ChainMessageView::Signed(signed).encodable() <==> signed.encoding is Ok,
{
}

/// What is encoded is identified by its bytes, and what cannot be encoded is not identified, for
/// the same reason.
pub proof fn law_encoding_is_identified(bytes: Seq<u8>, error: Seq<char>)
    ensures
        encoding_cid(Ok(bytes)) == Ok::<Seq<u8>, Seq<char>>(block_cid(bytes)),
        encoding_cid(Err(error)) == Err::<Seq<u8>, Seq<char>>(error),
{
}

/// `free` is `charged` without the gas, the tip and the penalty: the rest is as it was.
pub open spec fn freed(charged: RetView, free: RetView) -> bool {
    &&& free.receipt.exit_code == charged.receipt.exit_code
    &&& free.receipt.return_data == charged.receipt.return_data
    &&& free.receipt.gas_used == 0
    &&& free.error == charged.error
    &&& free.penalty == 0
    &&& free.miner_tip == 0
    &&& free.base_fee_burn == charged.base_fee_burn
    &&& free.over_estimation_burn == charged.over_estimation_burn
    &&& free.refund == charged.refund
    &&& free.gas_refund == charged.gas_refund
    &&& free.gas_burned == charged.gas_burned
    &&& free.exec_trace == charged.exec_trace
}

/// Nothing is charged for a message of the interpreter's own, however it ended, and nothing else
/// of its result is changed. To do so twice is to do so once. An error of the executor stays.
pub proof fn law_implicit_result_is_free(ret: RetView, error: Seq<char>)
    ensures
        freed(ret, ret.uncharged()),
        ret.uncharged().uncharged() == ret.uncharged(),
        implicit_result_view(Ok(ret)) matches Ok(free) && freed(ret, free),
        implicit_result_view(Err(error)) == Err::<RetView, Seq<char>>(error),
{
}

/// The default result is a success without any effect.
pub proof fn law_nothing_is_a_success()
    ensures
        RetView::nothing().receipt.exit_code == 0,
        RetView::nothing().receipt.return_data.len() == 0,
        RetView::nothing().receipt.gas_used == 0,
        RetView::nothing().error is None,
        RetView::nothing().penalty == 0,
        RetView::nothing().miner_tip == 0,
        RetView::nothing().base_fee_burn == 0,
        RetView::nothing().over_estimation_burn == 0,
        RetView::nothing().refund == 0,
        RetView::nothing().gas_refund == 0,
        RetView::nothing().gas_burned == 0,
        RetView::nothing().exec_trace.len() == 0,
{
}

/// Two results are equal exactly where penalty, tip, exit code, return data and gas are, and
/// either both or none has an error. What the errors say, and the rest, does not matter.
pub proof fn law_equality_of_results(one: ApplyRet, other: ApplyRet)
    ensures
        one.eq_spec(&other) <==> {
            &&& one.penalty@ == other.penalty@
            &&& one.miner_tip@ == other.miner_tip@
            &&& one.act_error is Some == other.act_error is Some
            &&& one.msg_receipt.exit_code == other.msg_receipt.exit_code
            &&& one.msg_receipt.return_data@ == other.msg_receipt.return_data@
            &&& one.msg_receipt.gas_used == other.msg_receipt.gas_used
        },
{
}

/// What the executor reports is taken over as it is.
pub proof fn law_from_takes_every_field(ret: ExecutorRet)
    ensures
        ({
            let applied = <ApplyRet as vstd::std_specs::convert::FromSpec<ExecutorRet>>::from_spec(
                ret,
            );
            &&& applied.msg_receipt == ret.msg_receipt
            &&& applied.act_error is Some <==> ret.failure_info is Some
            &&& ret.failure_info is Some ==> applied.act_error->0.text == ret.failure_info->0
            &&& applied.penalty == ret.penalty
            &&& applied.miner_tip == ret.miner_tip
            &&& applied.base_fee_burn == ret.base_fee_burn
            &&& applied.over_estimation_burn == ret.over_estimation_burn
            &&& applied.refund == ret.refund
            &&& applied.gas_refund == ret.gas_refund
            &&& applied.gas_burned == ret.gas_burned
            &&& applied.exec_trace == ret.exec_trace
        }),
{
}

/// The text of an error is the text that came with it, behind words that say what failed. Where
/// the words name a miner, they end in how the miner's address reads.
pub proof fn law_error_is_described(
    text: Seq<char>,
    error: Seq<char>,
    miner: Seq<u8>,
    code: u32,
)
    ensures
        ErrorView::Encoding(error).described_by(text) <==> text == error,
        ErrorView::Message(error).described_by(text) <==> text == error,
        ErrorView::Callback(error).described_by(text) <==> text == error,
        ErrorView::Cron(error).described_by(text) <==> text
            == "failed to apply block cron message: "@ + error,
        ErrorView::RewardExit(code).described_by(text) <==> text
            == "reward application message failed (exit: "@ + exit_code_text(code) + ")"@,
        address_text(miner) matches Ok(rest) ==> (ErrorView::Reward(miner, error).described_by(text)
            <==> text == "failed to apply reward message for miner "@ + (seq!['f'] + rest) + ": "@
            + error || text == "failed to apply reward message for miner "@ + (seq!['t'] + rest)
            + ": "@ + error),
        address_text(miner) matches Err(fault) ==> (ErrorView::Reward(miner, error).described_by(
            text,
        ) <==> text == "failed to apply reward message for miner "@ + fault + ": "@ + error),
{
}

/// What a message holds is what its fields hold.
pub proof fn law_message_holds_its_fields(message: UnsignedMessage)
    ensures
        message@.version == message.version,
        message@.from == message.from.bytes@,
        message@.to == message.to.bytes@,
        message@.sequence == message.sequence,
        message@.value == message.value@,
        message@.method_num == message.method_num,
        message@.params == message.params@,
        message@.gas_limit == message.gas_limit,
        message@.gas_fee_cap == message.gas_fee_cap@,
        message@.gas_premium == message.gas_premium@,
{
}

/// What a message of a block holds is the message, signed or not; what a block holds are its miner,
/// its messages in their order and its wins.
pub proof fn law_block_holds_its_messages(
    chain: ChainMessage,
    block: BlockMessages,
    blocks: Seq<BlockMessages>,
    i: int,
)
    ensures
        match chain {
            ChainMessage::Unsigned(message) => chain@ == ChainMessageView::Unsigned(message@),
            ChainMessage::Signed(signed) => chain@ == ChainMessageView::Signed(signed@),
        },
        block@.miner == block.miner.bytes@,
        block@.win_count == block.win_count,
        block@.messages.len() == block.messages@.len(),
        0 <= i < block.messages@.len() ==> block@.messages[i] == block.messages@[i]@,
        blocks_view(blocks).len() == blocks.len(),
        0 <= i < blocks.len() ==> blocks_view(blocks)[i] == blocks[i]@,
{
}

/// What a receipt and a result hold is what their fields hold.
pub proof fn law_result_holds_its_fields(
    receipt: Receipt,
    executed: ExecutorRet,
    applied: ApplyRet,
    i: int,
)
    ensures
        receipt@.exit_code == receipt.exit_code.value,
        receipt@.return_data == receipt.return_data@,
        receipt@.gas_used == receipt.gas_used,
        executed@.receipt == executed.msg_receipt@,
        executed@.error is Some <==> executed.failure_info is Some,
        executed.failure_info is Some ==> executed@.error->0 == executed.failure_info->0@,
        executed@.penalty == executed.penalty@,
        executed@.miner_tip == executed.miner_tip@,
        executed@.base_fee_burn == executed.base_fee_burn@,
        executed@.over_estimation_burn == executed.over_estimation_burn@,
        executed@.refund == executed.refund@,
        executed@.gas_refund == executed.gas_refund,
        executed@.gas_burned == executed.gas_burned,
        executed@.exec_trace.len() == executed.exec_trace@.len(),
        0 <= i < executed.exec_trace@.len() ==> executed@.exec_trace[i]
            == executed.exec_trace@[i]@,
        applied@.receipt == applied.msg_receipt@,
        applied@.error is Some <==> applied.act_error is Some,
        applied.act_error is Some ==> applied@.error->0 == applied.act_error->0.text@,
        applied@.penalty == applied.penalty@,
        applied@.miner_tip == applied.miner_tip@,
        applied@.base_fee_burn == applied.base_fee_burn@,
        applied@.over_estimation_burn == applied.over_estimation_burn@,
        applied@.refund == applied.refund@,
        applied@.gas_refund == applied.gas_refund,
        applied@.gas_burned == applied.gas_burned,
        applied@.exec_trace.len() == applied.exec_trace@.len(),
        0 <= i < applied.exec_trace@.len() ==> applied@.exec_trace[i] == applied.exec_trace@[i]@,
{
}

/// What a request, a notification and the configuration of a machine hold is what their fields
/// hold.
pub proof fn law_request_holds_its_fields(
    request: ExecutionRequest,
    notification: Notification,
    config: MachineConfig,
)
    ensures
        request@.message == request.message@,
        request@.kind == request.kind,
        request@.raw_length == request.raw_length,
        notification@.cid == notification.cid.bytes@,
        notification@.message == notification.message@,
        notification@.ret == notification.ret@,
        config@.network_version == config.network_version,
        config@.builtin_actors == config.builtin_actors.bytes@,
        config@.epoch == config.epoch,
        config@.initial_state_root == config.initial_state_root.bytes@,
        config@.base_fee == config.base_fee@,
        config@.circ_supply == config.circ_supply@,
        config@.tracing == config.tracing,
        config@.override_circ_supply is Some <==> config.override_circ_supply is Some,
        config.override_circ_supply is Some ==> config@.override_circ_supply->0
            == config.override_circ_supply->0@,
        amount_view(config.override_circ_supply) == config@.override_circ_supply,
{
}

/// What an error holds is its kind and what came with it.
pub proof fn law_error_holds_its_fields(error: ApplyError)
    ensures
        match error {
            ApplyError::Encoding(text) => error@ == ErrorView::Encoding(text@),
            ApplyError::Message(text) => error@ == ErrorView::Message(text@),
            ApplyError::Callback(text) => error@ == ErrorView::Callback(text@),
            ApplyError::Reward { miner, error: text } => error@ == ErrorView::Reward(
                miner.bytes@,
                text@,
            ),
            ApplyError::RewardExit(code) => error@ == ErrorView::RewardExit(code.value),
            ApplyError::Cron(text) => error@ == ErrorView::Cron(text@),
        },
{
}

/// What a step holds is what it asks for, or the outcome: the receipts in their order, and the
/// failure to end the epoch if there was one; or the error.
pub proof fn law_step_holds_what_it_asks_for(
    step: TipsetStep,
    outcome: TipsetOutcome,
    cron: CronStep,
    i: int,
)
    ensures
        match step {
            TipsetStep::Execute(request, run) => step@ == StepView::Execute(request@, run@),
            TipsetStep::Notify(notification, run) => step@ == StepView::Notify(
                notification@,
                run@,
            ),
            TipsetStep::Finish(outcome) => step@ == StepView::Finish(outcome@),
        },
        match outcome {
            TipsetOutcome::Applied { receipts, cron_error } => {
                &&& outcome@ matches OutcomeView::Applied(held, error)
                &&& held.len() == receipts@.len()
                &&& 0 <= i < receipts@.len() ==> held[i] == receipts@[i]@
                &&& error is Some <==> cron_error is Some
                &&& cron_error is Some ==> error->0 == cron_error->0@
            },
            TipsetOutcome::Failed { error } => outcome@ == OutcomeView::Failed(error@),
        },
        match cron {
            CronStep::Notify(notification, _) => cron@ == CronStepView::Notify(notification@),
            CronStep::Finish(Ok(_)) => cron@ == CronStepView::Finish(Ok(())),
            CronStep::Finish(Err(error)) => cron@ == CronStepView::Finish(Err(error@)),
        },
{
}

/// What came of an attempt holds what came of it: the value, or the text of the error.
pub proof fn law_attempts_hold_their_results(
    bytes: Result<Vec<u8>, String>,
    cid: Result<Cid, String>,
    executed: Result<ExecutorRet, String>,
    applied: Result<ApplyRet, String>,
    notified: Result<(), String>,
    attempt: Result<(), ApplyError>,
)
    ensures
        match bytes {
            Ok(value) => bytes_view(bytes) == Ok::<Seq<u8>, Seq<char>>(value@),
            Err(error) => bytes_view(bytes) == Err::<Seq<u8>, Seq<char>>(error@),
        },
        match cid {
            Ok(value) => cid_view(cid) == Ok::<Seq<u8>, Seq<char>>(value.bytes@),
            Err(error) => cid_view(cid) == Err::<Seq<u8>, Seq<char>>(error@),
        },
        match executed {
            Ok(value) => executed_view(executed) == Ok::<RetView, Seq<char>>(value@),
            Err(error) => executed_view(executed) == Err::<RetView, Seq<char>>(error@),
        },
        match applied {
            Ok(value) => applied_view(applied) == Ok::<RetView, Seq<char>>(value@),
            Err(error) => applied_view(applied) == Err::<RetView, Seq<char>>(error@),
        },
        match notified {
            Ok(_) => notified_view(notified) == Ok::<(), Seq<char>>(()),
            Err(error) => notified_view(notified) == Err::<(), Seq<char>>(error@),
        },
        match attempt {
            Ok(_) => attempt_view(attempt) == Ok::<(), ErrorView>(()),
            Err(error) => attempt_view(attempt) == Err::<(), ErrorView>(error@),
        },
{
}

/// Lists of receipts and of texts hold what their members hold.
pub proof fn law_lists_hold_receipts_and_texts(
    receipts: Seq<Receipt>,
    texts: Seq<String>,
    i: int,
)
    ensures
        receipts_view(receipts).len() == receipts.len(),
        0 <= i < receipts.len() ==> receipts_view(receipts)[i] == receipts[i]@,
        texts_view(texts).len() == texts.len(),
        0 <= i < texts.len() ==> texts_view(texts)[i] == texts[i]@,
{
}

/// The text of the error of the reward actor holds both texts, in their order.
pub proof fn law_reward_text_holds_both(miner: Seq<char>, error: Seq<char>)
    ensures
        reward_text(miner, error) == "failed to apply reward message for miner "@ + miner + ": "@
            + error,
{
}

} // verus!
