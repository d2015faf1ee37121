use forest_vm::actors::{bundle_versions, import_actors, Bundle, DataBlock, V14, V15};
use forest_vm::amount::BigInt;
use forest_vm::cron::CronStep;
use forest_vm::error::ApplyError;
use forest_vm::execution::ApplyKind;
use forest_vm::identifiers::{Address, Cid};
use forest_vm::message::{cron_message, ChainMessage, UnsignedMessage};
use forest_vm::receipt::{ApplyRet, ExecutorRet, ExitCode, Receipt};
use forest_vm::tipset::TipsetStep;
use forest_vm::vm::{ActorState, MigrationStep, VM};
use std::collections::BTreeMap;

fn cid(byte: u8) -> Cid {
    Cid { bytes: vec![1, byte] }
}

fn block(byte: u8) -> DataBlock {
    DataBlock { cid: cid(byte), data: vec![byte, byte] }
}

fn bundles(first: u8, second: u8) -> Vec<Bundle> {
    vec![
        Bundle { roots: vec![cid(first)], blocks: vec![block(1), block(2)] },
        Bundle { roots: vec![cid(second)], blocks: vec![block(3)] },
    ]
}

fn interpreter() -> VM {
    let bundles = bundles(14, 15);
    let actors = import_actors(&bundles).0;
    VM::new(
        cid(1),
        Ok(()),
        100,
        BigInt::from_i64(7),
        V15,
        Some(BigInt::from_i64(8)),
        Some(BigInt::from_i64(9)),
        &actors,
        500,
    )
    .unwrap()
}

fn message(gas_limit: i64) -> UnsignedMessage {
    UnsignedMessage {
        version: 0,
        from: Address { bytes: vec![0, 100] },
        to: Address { bytes: vec![0, 101] },
        sequence: 1,
        value: BigInt::zero(),
        method_num: 0,
        params: Vec::new(),
        gas_limit,
        gas_fee_cap: BigInt::zero(),
        gas_premium: BigInt::zero(),
    }
}

fn executed() -> ExecutorRet {
    ExecutorRet {
        msg_receipt: Receipt {
            exit_code: ExitCode { value: 0 },
            return_data: vec![5],
            gas_used: 70,
        },
        penalty: BigInt::from_i64(2),
        miner_tip: BigInt::from_i64(3),
        base_fee_burn: BigInt::zero(),
        over_estimation_burn: BigInt::zero(),
        refund: BigInt::zero(),
        gas_refund: 0,
        gas_burned: 0,
        failure_info: None,
        exec_trace: Vec::new(),
    }
}

#[test]
fn actors_are_listed_by_version() {
    assert_eq!(bundle_versions(), vec![14, 15]);
    let bundles = bundles(8, 9);
    let (actors, _) = import_actors(&bundles);
    assert_eq!(actors.len(), 2);
    assert_eq!(actors.get(&V14).unwrap().bytes, cid(8).bytes);
    assert_eq!(actors.get(&V15).unwrap().bytes, cid(9).bytes);
    assert!(actors.get(&13).is_none());
}

#[test]
fn import_writes_the_blocks_of_both_bundles() {
    let bundles = bundles(8, 9);
    let mut store = BTreeMap::new();
    store.insert(vec![7], vec![7]);
    for _ in 0..2 {
        let (_, blocks) = import_actors(&bundles);
        let written: Vec<u8> = blocks.iter().map(|block| block.data[0]).collect();
        assert_eq!(written, vec![1, 2, 3]);
        for block in blocks {
            store.insert(block.cid.bytes.clone(), block.data.clone());
        }
        assert_eq!(store.len(), 4);
        assert_eq!(store.get(&cid(2).bytes), Some(&vec![2, 2]));
        assert_eq!(store.get(&vec![7]), Some(&vec![7]));
    }
}

#[test]
fn table_is_fixed_by_the_roots() {
    let same = bundles(8, 9);
    let swapped = bundles(9, 8);
    let first = import_actors(&same).0;
    let second = import_actors(&same).0;
    let other = import_actors(&swapped).0;
    for version in bundle_versions() {
        let index = &first.get(&version).unwrap().bytes;
        assert_eq!(index, &second.get(&version).unwrap().bytes);
        assert_ne!(index, &other.get(&version).unwrap().bytes);
    }
}

#[test]
fn interpreter_is_set_up_for_its_version() {
    let vm = interpreter();
    let config = vm.config();
    assert_eq!(config.network_version, 15);
    assert_eq!(config.builtin_actors.bytes, cid(15).bytes);
    assert_eq!(config.epoch, 100);
    assert_eq!(config.initial_state_root.bytes, cid(1).bytes);
    assert!(config.base_fee == BigInt::from_i64(7));
    assert!(config.circ_supply == BigInt::from_i64(8));
    assert!(config.override_circ_supply.as_ref().unwrap() == &BigInt::from_i64(9));
    assert!(config.tracing);
    assert_eq!(vm.registered_actors().len(), 0);
}

#[test]
fn interpreter_needs_the_state() {
    let bundles = bundles(14, 15);
    let actors = import_actors(&bundles).0;
    let vm = VM::new(
        cid(1),
        Err("no such root".to_string()),
        100,
        BigInt::zero(),
        99,
        None,
        None,
        &actors,
        500,
    );
    assert_eq!(vm.unwrap_err(), "no such root");
}

#[test]
fn actor_is_registered_once() {
    let mut vm = interpreter();
    assert!(vm.register_actor(cid(50)));
    assert!(!vm.register_actor(cid(50)));
    assert!(vm.register_actor(cid(51)));
    assert_eq!(vm.registered_actors().len(), 2);
    assert!(vm.registered_actors().contains(&cid(50)));
    assert!(!vm.registered_actors().contains(&cid(52)));
    assert_eq!(vm.config().epoch, 100);
}

#[test]
fn actor_is_what_the_state_holds() {
    let vm = interpreter();
    let state = ActorState {
        code: cid(60),
        state: cid(61),
        sequence: 4,
        balance: BigInt::from_i64(12),
    };
    let found = vm.get_actor(Ok(Some(state))).unwrap().unwrap();
    assert_eq!(found.code.bytes, cid(60).bytes);
    assert_eq!(found.sequence, 4);
    assert!(vm.get_actor(Ok(None)).unwrap().is_none());
    assert_eq!(
        vm.get_actor(Err("broken".to_string())).unwrap_err(),
        "failed to get actor: broken"
    );
}

#[test]
fn there_is_no_migration_at_other_epochs() {
    let vm = interpreter();
    for epoch in [499, 501, -500] {
        match vm.migrate_state(epoch) {
            MigrationStep::Finish(migrated) => assert!(migrated.unwrap().is_none()),
            other => panic!("{:?}", other),
        }
    }
}

#[test]
fn migration_ends_with_the_new_root_or_an_error() {
    let vm = interpreter();
    for root in [Ok(cid(70)), Err("stuck".to_string())] {
        match vm.migrate_state(500) {
            MigrationStep::Migrate(waiting) => match waiting.migrated(root) {
                Ok(root) => assert_eq!(root.unwrap().bytes, cid(70).bytes),
                Err(error) => assert_eq!(error, "stuck"),
            },
            other => panic!("{:?}", other),
        }
    }
}

#[test]
fn cron_runs_without_a_callback() {
    let vm = interpreter();
    let (request, waiting) = vm.run_cron(-3, false);
    assert_eq!(request.kind, ApplyKind::Implicit);
    assert_eq!(request.message.sequence, u64::MAX - 2);
    assert_eq!(request.message.marshal_cbor(), cron_message(-3).marshal_cbor());
    match waiting.executed(Ok(executed())) {
        CronStep::Finish(result) => assert!(result.is_ok()),
        other => panic!("{:?}", other),
    }
}

#[test]
fn cron_tells_the_callback() {
    let vm = interpreter();
    for answer in [Ok(()), Err("refused".to_string())] {
        let (_, waiting) = vm.run_cron(5, true);
        match waiting.executed(Ok(executed())) {
            CronStep::Notify(notification, waiting) => {
                assert_eq!(
                    notification.cid.bytes,
                    cron_message(5).cid().unwrap().bytes
                );
                assert!(matches!(notification.message, ChainMessage::Unsigned(_)));
                assert_eq!(notification.ret.msg_receipt.gas_used, 0);
                assert_eq!(notification.ret.msg_receipt.return_data, vec![5]);
                let refused = answer.is_err();
                match waiting.notified(answer) {
                    Ok(()) => assert!(!refused),
                    Err(ApplyError::Callback(error)) => assert_eq!(error, "refused"),
                    Err(other) => panic!("{:?}", other),
                }
            }
            other => panic!("{:?}", other),
        }
    }
}

#[test]
fn cron_fails_with_the_executor_or_the_actor() {
    let vm = interpreter();
    let (_, waiting) = vm.run_cron(5, true);
    match waiting.executed(Err("executor is down".to_string())) {
        CronStep::Finish(Err(error)) => assert_eq!(error.describe(), "executor is down"),
        other => panic!("{:?}", other),
    }
    let (_, waiting) = vm.run_cron(5, true);
    let mut ret = executed();
    ret.failure_info = Some("boom".to_string());
    match waiting.executed(Ok(ret)) {
        CronStep::Finish(Err(error)) => {
            assert_eq!(error.describe(), "failed to apply block cron message: boom");
        }
        other => panic!("{:?}", other),
    }
}

#[test]
fn tipset_begins_with_cron_where_there_are_no_blocks() {
    let vm = interpreter();
    match vm.apply_block_messages(&[], 9, false) {
        TipsetStep::Execute(request, _) => assert_eq!(request.message.sequence, 9),
        other => panic!("{:?}", other),
    }
}

#[test]
fn implicit_message_is_applied_free_of_charge() {
    let vm = interpreter();
    let request = vm.apply_implicit_message(&message(0));
    assert_eq!(request.kind, ApplyKind::Implicit);
    let ret = vm.implicit_message_applied(Ok(executed())).unwrap();
    assert_eq!(ret.msg_receipt.gas_used, 0);
    assert!(ret.miner_tip == BigInt::zero());
    assert!(ret.penalty == BigInt::zero());
    assert_eq!(vm.implicit_message_applied(Err("no".to_string())).unwrap_err(), "no");
}

#[test]
fn message_is_checked_and_applied() {
    let vm = interpreter();
    assert_eq!(
        vm.apply_message(&ChainMessage::Unsigned(message(0))).unwrap_err(),
        "Message has no gas limit set"
    );
    assert_eq!(
        vm.apply_message(&ChainMessage::Unsigned(message(i64::MIN))).unwrap_err(),
        "Message has negative gas limit"
    );
    let request = vm.apply_message(&ChainMessage::Unsigned(message(1))).unwrap();
    assert_eq!(request.kind, ApplyKind::Explicit);
    assert_eq!(request.raw_length, message(1).marshal_cbor().unwrap().len());
    let ret = vm.message_applied(Ok(executed())).unwrap();
    assert!(ret == ApplyRet::from(executed()));
    assert_eq!(ret.msg_receipt.gas_used, 70);
    assert_eq!(vm.message_applied(Err("no".to_string())).unwrap_err(), "no");
}
