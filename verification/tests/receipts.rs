use forest_vm::amount::BigInt;
use forest_vm::error::{describe_reward_error, ApplyError};
use forest_vm::identifiers::Address;
use forest_vm::receipt::{ActorError, ApplyRet, ExecutorRet, ExitCode, Receipt};

fn executor_ret() -> ExecutorRet {
    ExecutorRet {
        msg_receipt: Receipt {
            exit_code: ExitCode { value: 1 },
            return_data: vec![9],
            gas_used: 70,
        },
        penalty: BigInt::from_i64(2),
        miner_tip: BigInt::from_i64(3),
        base_fee_burn: BigInt::from_i64(4),
        over_estimation_burn: BigInt::from_i64(5),
        refund: BigInt::from_i64(6),
        gas_refund: 7,
        gas_burned: 8,
        failure_info: None,
        exec_trace: vec!["call".to_string(), "return".to_string()],
    }
}

#[test]
fn default_is_a_success_without_charges() {
    let ret = ApplyRet::default();
    assert!(ret.msg_receipt.exit_code.is_success());
    assert!(ret.msg_receipt.return_data.is_empty());
    assert_eq!(ret.msg_receipt.gas_used, 0);
    assert!(ret.act_error.is_none());
    assert!(ret.penalty == BigInt::zero());
    assert!(ret.miner_tip == BigInt::zero());
    assert!(ret.base_fee_burn == BigInt::zero());
    assert!(ret.over_estimation_burn == BigInt::zero());
    assert!(ret.refund == BigInt::zero());
    assert_eq!(ret.gas_refund, 0);
    assert_eq!(ret.gas_burned, 0);
    assert!(ret.exec_trace.is_empty());
}

#[test]
fn from_keeps_every_field() {
    let ret = ApplyRet::from(executor_ret());
    assert_eq!(ret.msg_receipt.exit_code, ExitCode { value: 1 });
    assert_eq!(ret.msg_receipt.return_data, vec![9]);
    assert_eq!(ret.msg_receipt.gas_used, 70);
    assert!(ret.penalty == BigInt::from_i64(2));
    assert!(ret.miner_tip == BigInt::from_i64(3));
    assert!(ret.base_fee_burn == BigInt::from_i64(4));
    assert!(ret.over_estimation_burn == BigInt::from_i64(5));
    assert!(ret.refund == BigInt::from_i64(6));
    assert_eq!(ret.gas_refund, 7);
    assert_eq!(ret.gas_burned, 8);
    assert!(ret.act_error.is_none());
    assert_eq!(ret.exec_trace, vec!["call".to_string(), "return".to_string()]);
}

#[test]
fn clone_keeps_every_field() {
    let mut ret = ApplyRet::from(executor_ret());
    ret.act_error = Some(ActorError { text: "boom".to_string() });
    let copy = ret.clone();
    assert!(copy == ret);
    assert_eq!(copy.act_error.unwrap().text, "boom");
    assert_eq!(copy.exec_trace, ret.exec_trace);
    assert!(copy.refund == ret.refund);
    assert_eq!(copy.gas_burned, 8);
}

#[test]
fn equality_ignores_gas_details_and_error_texts() {
    let a = ApplyRet::from(executor_ret());
    let mut b = ApplyRet::from(executor_ret());
    b.base_fee_burn = BigInt::zero();
    b.over_estimation_burn = BigInt::zero();
    b.refund = BigInt::zero();
    b.gas_refund = 0;
    b.gas_burned = 0;
    b.exec_trace = Vec::new();
    assert!(a == b);
    let mut c = a.clone();
    let mut d = a.clone();
    c.act_error = Some(ActorError { text: "one".to_string() });
    d.act_error = Some(ActorError { text: "other".to_string() });
    assert!(c == d);
    assert!(a != c);
}

#[test]
fn equality_sees_the_rest() {
    let a = ApplyRet::from(executor_ret());
    let mut b = a.clone();
    b.penalty = BigInt::zero();
    assert!(a != b);
    let mut b = a.clone();
    b.miner_tip = BigInt::zero();
    assert!(a != b);
    let mut b = a.clone();
    b.msg_receipt.exit_code = ExitCode { value: 0 };
    assert!(a != b);
    let mut b = a.clone();
    b.msg_receipt.return_data = vec![8];
    assert!(a != b);
    let mut b = a.clone();
    b.msg_receipt.gas_used = 71;
    assert!(a != b);
}

#[test]
fn agreement_is_an_equivalence() {
    let a = ApplyRet::from(executor_ret());
    let mut b = a.clone();
    b.refund = BigInt::zero();
    let mut c = b.clone();
    c.gas_burned = 0;
    assert!(a == a.clone());
    assert!(a == b && b == a);
    assert!(b == c && a == c);
}

#[test]
fn plain_errors_are_their_own_text() {
    assert_eq!(ApplyError::Encoding("e".to_string()).describe(), "e");
    assert_eq!(ApplyError::Message("m".to_string()).describe(), "m");
    assert_eq!(ApplyError::Callback("c".to_string()).describe(), "c");
}

#[test]
fn cron_error_is_introduced() {
    let text = ApplyError::Cron("boom".to_string()).describe();
    assert_eq!(text, "failed to apply block cron message: boom");
}

#[test]
fn reward_exit_shows_the_code() {
    let text = ApplyError::RewardExit(ExitCode { value: 16 }).describe();
    assert_eq!(text, "reward application message failed (exit: ExitCode { value: 16 })");
}

#[test]
fn reward_error_names_the_miner() {
    let miner = fvm_shared::address::Address::new_id(1000);
    let error = ApplyError::Reward {
        miner: Address { bytes: vec![0, 0xe8, 0x07] },
        error: "boom".to_string(),
    };
    assert_eq!(
        error.describe(),
        format!("failed to apply reward message for miner {}: boom", miner)
    );
    assert_eq!(error.describe(), "failed to apply reward message for miner f01000: boom");
}

#[test]
fn reward_error_of_a_bad_address_is_still_described() {
    let error = ApplyError::Reward {
        miner: Address { bytes: vec![99] },
        error: "boom".to_string(),
    };
    assert_eq!(
        error.describe(),
        "failed to apply reward message for miner Invalid address length: boom"
    );
}

#[test]
fn reward_error_is_put_together() {
    assert_eq!(
        describe_reward_error("t01000", "boom"),
        "failed to apply reward message for miner t01000: boom"
    );
}
