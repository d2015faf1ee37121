use forest_vm::amount::BigInt;
use forest_vm::cron::Notification;
use forest_vm::error::ApplyError;
use forest_vm::execution::{ApplyKind, ExecutionRequest};
use forest_vm::identifiers::{Address, Cid};
use forest_vm::message::{
    award_params, cron_message, reward_message, BlockMessages, ChainMessage, SignedMessage,
    UnsignedMessage,
};
use forest_vm::receipt::{ExecutorRet, ExitCode, Receipt};
use forest_vm::tipset::{start_tipset, TipsetOutcome, TipsetStep};

const EPOCH: i64 = 77;

fn plain(sequence: u64) -> UnsignedMessage {
    UnsignedMessage {
        version: 0,
        from: Address { bytes: vec![0, 100] },
        to: Address { bytes: vec![0, 101] },
        sequence,
        value: BigInt::zero(),
        method_num: 0,
        params: Vec::new(),
        gas_limit: 10,
        gas_fee_cap: BigInt::zero(),
        gas_premium: BigInt::zero(),
    }
}

fn unsigned(sequence: u64) -> ChainMessage {
    ChainMessage::Unsigned(plain(sequence))
}

fn signed(sequence: u64, signature: u8) -> ChainMessage {
    ChainMessage::Signed(SignedMessage::new(
        plain(sequence),
        Ok(vec![signature]),
        Ok(Cid { bytes: vec![1, signature] }),
    ))
}

fn block(miner: u8, messages: Vec<ChainMessage>) -> BlockMessages {
    BlockMessages { miner: Address { bytes: vec![0, miner] }, messages, win_count: 1 }
}

/// An amount that is too large to be encoded.
fn too_large() -> BigInt {
    let mut bytes = vec![0; 127];
    bytes.push(1);
    BigInt { bytes }
}

fn executed(gas_used: i64, penalty: i64, tip: i64) -> ExecutorRet {
    ExecutorRet {
        msg_receipt: Receipt {
            exit_code: ExitCode { value: 0 },
            return_data: Vec::new(),
            gas_used,
        },
        penalty: BigInt::from_i64(penalty),
        miner_tip: BigInt::from_i64(tip),
        base_fee_burn: BigInt::zero(),
        over_estimation_burn: BigInt::zero(),
        refund: BigInt::zero(),
        gas_refund: 0,
        gas_burned: 0,
        failure_info: None,
        exec_trace: Vec::new(),
    }
}

/// An executor for which each message uses as much gas as its sequence says, pays a hundred times
/// that as a tip and ten times that as a penalty.
fn execute(request: &ExecutionRequest) -> Result<ExecutorRet, String> {
    let n = request.message.sequence as i64;
    Ok(executed(n, n * 10, n * 100))
}

fn is_cron(request: &ExecutionRequest) -> bool {
    request.kind == ApplyKind::Implicit && request.message.to.bytes == vec![0, 3]
}

fn is_reward(request: &ExecutionRequest) -> bool {
    request.kind == ApplyKind::Implicit && request.message.to.bytes == vec![0, 2]
}

struct Run {
    requests: Vec<ExecutionRequest>,
    notifications: Vec<Notification>,
    outcome: TipsetOutcome,
}

fn run(
    blocks: &[BlockMessages],
    executor: &dyn Fn(&ExecutionRequest) -> Result<ExecutorRet, String>,
    callback: Option<&dyn Fn(&Notification) -> Result<(), String>>,
) -> Run {
    let mut requests = Vec::new();
    let mut notifications = Vec::new();
    let mut step = start_tipset(blocks, EPOCH, callback.is_some());
    loop {
        step = match step {
            TipsetStep::Execute(request, waiting) => {
                let answer = executor(&request);
                requests.push(request);
                waiting.executed(answer)
            }
            TipsetStep::Notify(notification, waiting) => {
                let answer = (callback.unwrap())(&notification);
                notifications.push(notification);
                waiting.notified(answer)
            }
            TipsetStep::Finish(outcome) => {
                return Run { requests, notifications, outcome };
            }
        };
    }
}

fn gas_used(outcome: TipsetOutcome) -> Vec<i64> {
    match outcome {
        TipsetOutcome::Applied { receipts, cron_error: None } => {
            receipts.iter().map(|receipt| receipt.gas_used).collect()
        }
        other => panic!("{:?}", other),
    }
}

fn error(outcome: TipsetOutcome) -> ApplyError {
    match outcome {
        TipsetOutcome::Failed { error } => error,
        other => panic!("{:?}", other),
    }
}

fn explicit_sequences(requests: &Vec<ExecutionRequest>) -> Vec<u64> {
    requests
        .iter()
        .filter(|request| request.kind == ApplyKind::Explicit)
        .map(|request| request.message.sequence)
        .collect()
}

#[test]
fn empty_tipset_ends_the_epoch() {
    let run = run(&[], &execute, None);
    assert_eq!(run.requests.len(), 1);
    assert!(is_cron(&run.requests[0]));
    let expected = cron_message(EPOCH).marshal_cbor();
    assert_eq!(run.requests[0].message.marshal_cbor(), expected);
    assert_eq!(run.requests[0].raw_length, expected.unwrap().len());
    assert!(gas_used(run.outcome).is_empty());
}

#[test]
fn receipts_come_in_the_order_of_the_messages() {
    let blocks = vec![
        block(1, vec![unsigned(3), unsigned(1)]),
        block(2, vec![unsigned(2)]),
    ];
    let run = run(&blocks, &execute, None);
    assert_eq!(gas_used(run.outcome), vec![3, 1, 2]);
    assert!(run.notifications.is_empty());
}

#[test]
fn rewards_follow_their_blocks_and_cron_comes_last() {
    let blocks = vec![
        block(1, vec![unsigned(3), unsigned(1)]),
        block(2, Vec::new()),
    ];
    let run = run(&blocks, &execute, None);
    assert_eq!(run.requests.len(), 5);
    assert_eq!(run.requests[0].kind, ApplyKind::Explicit);
    assert_eq!(run.requests[1].kind, ApplyKind::Explicit);
    assert!(is_reward(&run.requests[2]));
    assert!(is_reward(&run.requests[3]));
    assert!(is_cron(&run.requests[4]));
    assert!(run.requests.iter().filter(|request| is_cron(request)).count() == 1);
}

#[test]
fn message_is_executed_once_in_a_block() {
    let blocks = vec![block(1, vec![unsigned(3), unsigned(3), unsigned(4), unsigned(3)])];
    let run = run(&blocks, &execute, None);
    assert_eq!(explicit_sequences(&run.requests), vec![3, 4]);
    assert_eq!(gas_used(run.outcome), vec![3, 4]);
}

#[test]
fn message_is_executed_once_in_a_tipset() {
    let blocks = vec![
        block(1, vec![unsigned(3), unsigned(4)]),
        block(2, vec![unsigned(4), unsigned(5), unsigned(3)]),
    ];
    let run = run(&blocks, &execute, None);
    assert_eq!(explicit_sequences(&run.requests), vec![3, 4, 5]);
    assert_eq!(gas_used(run.outcome), vec![3, 4, 5]);
}

#[test]
fn signed_messages_are_told_apart_by_their_identifiers() {
    let blocks = vec![block(1, vec![signed(3, 8), signed(3, 9), signed(4, 8)])];
    let run = run(&blocks, &execute, None);
    assert_eq!(explicit_sequences(&run.requests), vec![3, 3]);
    assert_eq!(run.requests[0].raw_length, 1);
}

#[test]
fn signed_message_can_repeat_an_unsigned_one() {
    let same = ChainMessage::Signed(SignedMessage::new(plain(3), Ok(vec![9]), plain(3).cid()));
    let run = run(&[block(1, vec![unsigned(3), same])], &execute, None);
    assert_eq!(explicit_sequences(&run.requests), vec![3]);
    assert_eq!(gas_used(run.outcome), vec![3]);
}

#[test]
fn copies_change_nothing() {
    let accept = |_: &Notification| Ok(());
    let once = vec![
        block(1, vec![unsigned(3), unsigned(4)]),
        block(2, vec![unsigned(5)]),
    ];
    let repeated = vec![
        block(1, vec![unsigned(3), unsigned(3), unsigned(4), unsigned(3)]),
        block(2, vec![unsigned(4), unsigned(5), unsigned(5), unsigned(3)]),
    ];
    let one = run(&once, &execute, Some(&accept));
    let other = run(&repeated, &execute, Some(&accept));
    assert_eq!(one.requests.len(), other.requests.len());
    for i in 0..one.requests.len() {
        assert_eq!(
            one.requests[i].message.marshal_cbor(),
            other.requests[i].message.marshal_cbor()
        );
        assert_eq!(one.requests[i].kind, other.requests[i].kind);
    }
    assert_eq!(one.notifications.len(), other.notifications.len());
    for i in 0..one.notifications.len() {
        assert_eq!(one.notifications[i].cid.bytes, other.notifications[i].cid.bytes);
        assert!(one.notifications[i].ret == other.notifications[i].ret);
    }
    assert_eq!(gas_used(one.outcome), gas_used(other.outcome));
}

#[test]
fn reward_is_what_the_messages_of_the_block_earned() {
    let blocks = vec![
        block(1, vec![unsigned(3), unsigned(4)]),
        block(2, vec![unsigned(4), unsigned(5)]),
    ];
    let run = run(&blocks, &execute, None);
    let rewards: Vec<&ExecutionRequest> =
        run.requests.iter().filter(|request| is_reward(request)).collect();
    let first =
        award_params(&blocks[0], &BigInt::from_i64(70), &BigInt::from_i64(700)).unwrap();
    let second =
        award_params(&blocks[1], &BigInt::from_i64(50), &BigInt::from_i64(500)).unwrap();
    assert_eq!(rewards[0].message.params, first);
    assert_eq!(rewards[1].message.params, second);
    assert_eq!(
        rewards[0].message.marshal_cbor(),
        reward_message(EPOCH, first).marshal_cbor()
    );
}

#[test]
fn failed_message_still_gets_a_receipt() {
    let executor = |request: &ExecutionRequest| {
        let mut ret = execute(request)?;
        if request.kind == ApplyKind::Explicit {
            ret.msg_receipt.exit_code = ExitCode { value: 33 };
            ret.failure_info = Some("actor error".to_string());
        }
        Ok(ret)
    };
    let run = run(&[block(1, vec![unsigned(3)])], &executor, None);
    match run.outcome {
        TipsetOutcome::Applied { receipts, cron_error: None } => {
            assert_eq!(receipts.len(), 1);
            assert_eq!(receipts[0].exit_code, ExitCode { value: 33 });
        }
        other => panic!("{:?}", other),
    }
}

#[test]
fn faultless_tipset_is_applied_whatever_its_messages_did() {
    let executor = |request: &ExecutionRequest| {
        let mut ret = execute(request)?;
        if request.message.sequence == 4 {
            ret.msg_receipt.exit_code = ExitCode { value: 7 };
            ret.failure_info = Some("actor error".to_string());
        }
        Ok(ret)
    };
    let accept = |_: &Notification| Ok(());
    let blocks = vec![block(1, vec![unsigned(3), unsigned(4)]), block(2, vec![unsigned(5)])];
    assert_eq!(gas_used(run(&blocks, &executor, Some(&accept)).outcome), vec![3, 4, 5]);
    assert_eq!(gas_used(run(&blocks, &executor, None).outcome), vec![3, 4, 5]);
}

#[test]
fn message_without_encoding_fails_the_tipset() {
    let mut bad = plain(4);
    bad.value = too_large();
    let blocks = vec![block(1, vec![unsigned(3), ChainMessage::Unsigned(bad)])];
    let run = run(&blocks, &execute, None);
    assert_eq!(explicit_sequences(&run.requests), vec![3]);
    assert!(matches!(error(run.outcome), ApplyError::Encoding(_)));
}

#[test]
fn signed_message_without_identifier_fails_the_tipset() {
    for encoding in [Ok(vec![9]), Err("no form".to_string())] {
        let bad = SignedMessage::new(plain(4), encoding, Err("no identifier".to_string()));
        let blocks = vec![block(1, vec![unsigned(3), ChainMessage::Signed(bad), unsigned(5)])];
        let run = run(&blocks, &execute, None);
        assert_eq!(explicit_sequences(&run.requests), vec![3]);
        match error(run.outcome) {
            ApplyError::Encoding(error) => assert_eq!(error, "no identifier"),
            other => panic!("{:?}", other),
        }
    }
}

#[test]
fn copies_of_a_message_without_identifier_change_nothing() {
    let mut bad = plain(4);
    bad.value = too_large();
    let bad = ChainMessage::Unsigned(bad);
    let once = vec![block(1, vec![unsigned(3), bad.clone()])];
    let twice = vec![block(1, vec![unsigned(3), bad.clone(), bad])];
    let one = run(&once, &execute, None);
    let other = run(&twice, &execute, None);
    assert_eq!(one.requests.len(), other.requests.len());
    assert_eq!(error(one.outcome).describe(), error(other.outcome).describe());
}

#[test]
fn message_without_gas_limit_fails_the_tipset() {
    for (limit, text) in [
        (0, "Message has no gas limit set"),
        (-1, "Message has negative gas limit"),
    ] {
        let mut bad = plain(4);
        bad.gas_limit = limit;
        let blocks = vec![block(1, vec![unsigned(3), ChainMessage::Unsigned(bad)])];
        let run = run(&blocks, &execute, None);
        assert_eq!(run.requests.len(), 1);
        match error(run.outcome) {
            ApplyError::Message(error) => assert_eq!(error, text),
            other => panic!("{:?}", other),
        }
    }
}

#[test]
fn repeated_message_is_not_checked_again() {
    let mut again = plain(3);
    again.gas_limit = 0;
    let second = ChainMessage::Signed(SignedMessage::new(
        again,
        Ok(vec![8]),
        Ok(Cid { bytes: vec![1, 8] }),
    ));
    let blocks = vec![block(1, vec![signed(3, 8), second])];
    let run = run(&blocks, &execute, None);
    assert_eq!(gas_used(run.outcome), vec![3]);
}

#[test]
fn executor_error_fails_the_tipset() {
    let executor = |request: &ExecutionRequest| {
        if request.message.sequence == 4 {
            Err("executor is down".to_string())
        } else {
            execute(request)
        }
    };
    let run = run(&[block(1, vec![unsigned(3), unsigned(4), unsigned(5)])], &executor, None);
    assert_eq!(explicit_sequences(&run.requests), vec![3, 4]);
    match error(run.outcome) {
        ApplyError::Message(error) => assert_eq!(error, "executor is down"),
        other => panic!("{:?}", other),
    }
}

#[test]
fn executor_error_on_a_reward_fails_the_tipset() {
    let executor = |request: &ExecutionRequest| {
        if is_reward(request) {
            Err("executor is down".to_string())
        } else {
            execute(request)
        }
    };
    let run = run(&[block(1, Vec::new())], &executor, None);
    assert_eq!(run.requests.len(), 1);
    assert_eq!(error(run.outcome).describe(), "executor is down");
}

#[test]
fn reward_actor_error_fails_the_tipset() {
    let executor = |request: &ExecutionRequest| {
        let mut ret = execute(request)?;
        if is_reward(request) {
            ret.failure_info = Some("boom".to_string());
        }
        Ok(ret)
    };
    let run = run(&[block(1, vec![unsigned(3)]), block(2, Vec::new())], &executor, None);
    assert_eq!(run.requests.len(), 2);
    match error(run.outcome) {
        ApplyError::Reward { miner, error } => {
            assert_eq!(miner.bytes, vec![0, 1]);
            assert_eq!(error, "boom");
        }
        other => panic!("{:?}", other),
    }
}

#[test]
fn reward_exit_code_fails_the_tipset() {
    let executor = |request: &ExecutionRequest| {
        let mut ret = execute(request)?;
        if is_reward(request) {
            ret.msg_receipt.exit_code = ExitCode { value: 16 };
        }
        Ok(ret)
    };
    let run = run(&[block(1, Vec::new())], &executor, None);
    assert!(!run.requests.iter().any(is_cron));
    match error(run.outcome) {
        ApplyError::RewardExit(code) => assert_eq!(code, ExitCode { value: 16 }),
        other => panic!("{:?}", other),
    }
}

#[test]
fn reward_too_large_to_encode_fails_the_tipset() {
    let executor = |request: &ExecutionRequest| {
        let mut ret = execute(request)?;
        ret.miner_tip = too_large();
        Ok(ret)
    };
    let run = run(&[block(1, vec![unsigned(3)])], &executor, None);
    assert_eq!(run.requests.len(), 1);
    assert!(matches!(error(run.outcome), ApplyError::Encoding(_)));
}

#[test]
fn cron_failure_keeps_the_receipts() {
    let blocks = vec![block(1, vec![unsigned(3)])];
    let actor = |request: &ExecutionRequest| {
        let mut ret = execute(request)?;
        if is_cron(request) {
            ret.failure_info = Some("boom".to_string());
        }
        Ok(ret)
    };
    let executor = |request: &ExecutionRequest| {
        if is_cron(request) {
            Err("executor is down".to_string())
        } else {
            execute(request)
        }
    };
    match run(&blocks, &actor, None).outcome {
        TipsetOutcome::Applied { receipts, cron_error: Some(ApplyError::Cron(error)) } => {
            assert_eq!(receipts.len(), 1);
            assert_eq!(error, "boom");
        }
        other => panic!("{:?}", other),
    }
    match run(&blocks, &executor, None).outcome {
        TipsetOutcome::Applied { receipts, cron_error: Some(ApplyError::Message(error)) } => {
            assert_eq!(receipts.len(), 1);
            assert_eq!(error, "executor is down");
        }
        other => panic!("{:?}", other),
    }
}

#[test]
fn cron_exit_code_is_not_looked_at() {
    let executor = |request: &ExecutionRequest| {
        let mut ret = execute(request)?;
        if is_cron(request) {
            ret.msg_receipt.exit_code = ExitCode { value: 16 };
        }
        Ok(ret)
    };
    let run = run(&[], &executor, None);
    assert!(gas_used(run.outcome).is_empty());
}

#[test]
fn callback_sees_every_result_in_order() {
    let blocks = vec![block(1, vec![unsigned(3), unsigned(3)]), block(2, vec![signed(4, 9)])];
    let accept = |_: &Notification| Ok(());
    let run = run(&blocks, &execute, Some(&accept));
    let seen: Vec<Vec<u8>> = run
        .notifications
        .iter()
        .map(|notification| notification.message.message().to.bytes.clone())
        .collect();
    let account = vec![0, 101];
    let reward = vec![0, 2];
    let cron = vec![0, 3];
    assert_eq!(seen, vec![account.clone(), reward.clone(), account, reward, cron]);
    for notification in run.notifications.iter() {
        assert_eq!(
            notification.cid.bytes,
            notification.message.cid().unwrap().bytes
        );
    }
    assert_eq!(run.notifications[0].ret.msg_receipt.gas_used, 3);
    assert!(run.notifications[0].ret.miner_tip == BigInt::from_i64(300));
    assert_eq!(run.notifications[1].ret.msg_receipt.gas_used, 0);
    assert!(run.notifications[1].ret.miner_tip == BigInt::zero());
    assert!(run.notifications[1].ret.penalty == BigInt::zero());
    assert_eq!(run.notifications[4].ret.msg_receipt.gas_used, 0);
    assert_eq!(gas_used(run.outcome), vec![3, 4]);
}

#[test]
fn accepting_callback_changes_nothing() {
    let blocks = vec![block(1, vec![unsigned(3), unsigned(4)]), block(2, vec![unsigned(3)])];
    let accept = |_: &Notification| Ok(());
    let watched = run(&blocks, &execute, Some(&accept));
    let alone = run(&blocks, &execute, None);
    assert_eq!(watched.requests.len(), alone.requests.len());
    for i in 0..alone.requests.len() {
        assert_eq!(
            watched.requests[i].message.marshal_cbor(),
            alone.requests[i].message.marshal_cbor()
        );
        assert_eq!(watched.requests[i].kind, alone.requests[i].kind);
        assert_eq!(watched.requests[i].raw_length, alone.requests[i].raw_length);
    }
    assert_eq!(gas_used(watched.outcome), gas_used(alone.outcome));
}

#[test]
fn callback_refusal_of_a_message_fails_the_tipset() {
    let refuse = |_: &Notification| Err("refused".to_string());
    let run = run(&[block(1, vec![unsigned(3), unsigned(4)])], &execute, Some(&refuse));
    assert_eq!(run.requests.len(), 1);
    assert_eq!(run.notifications.len(), 1);
    match error(run.outcome) {
        ApplyError::Callback(error) => assert_eq!(error, "refused"),
        other => panic!("{:?}", other),
    }
}

#[test]
fn callback_refusal_of_a_reward_fails_the_tipset() {
    let refuse = |notification: &Notification| {
        if notification.message.message().to.bytes == vec![0, 2] {
            Err("refused".to_string())
        } else {
            Ok(())
        }
    };
    let run = run(&[block(1, vec![unsigned(3)]), block(2, Vec::new())], &execute, Some(&refuse));
    assert_eq!(run.requests.len(), 2);
    assert_eq!(error(run.outcome).describe(), "refused");
}

#[test]
fn callback_refusal_of_cron_keeps_the_receipts() {
    let refuse = |notification: &Notification| {
        if notification.message.message().to.bytes == vec![0, 3] {
            Err("refused".to_string())
        } else {
            Ok(())
        }
    };
    let run = run(&[block(1, vec![unsigned(3)])], &execute, Some(&refuse));
    match run.outcome {
        TipsetOutcome::Applied { receipts, cron_error: Some(ApplyError::Callback(error)) } => {
            assert_eq!(receipts.len(), 1);
            assert_eq!(error, "refused");
        }
        other => panic!("{:?}", other),
    }
}

#[test]
fn callback_is_not_called_for_a_failed_reward() {
    let executor = |request: &ExecutionRequest| {
        let mut ret = execute(request)?;
        if is_reward(request) {
            ret.failure_info = Some("boom".to_string());
        }
        Ok(ret)
    };
    let accept = |_: &Notification| Ok(());
    let run = run(&[block(1, vec![unsigned(3)])], &executor, Some(&accept));
    assert_eq!(run.notifications.len(), 1);
    assert!(matches!(error(run.outcome), ApplyError::Reward { .. }));
}

#[test]
fn steps_are_bounded_by_the_tipset() {
    let blocks = vec![block(1, vec![unsigned(3), unsigned(4)]), block(2, vec![unsigned(5)])];
    let accept = |_: &Notification| Ok(());
    let run = run(&blocks, &execute, Some(&accept));
    let work = 2 + 1 + 1 + 1;
    assert_eq!(run.requests.len() + run.notifications.len(), 2 * (work + 1));
}
