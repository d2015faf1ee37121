use forest_vm::amount::BigInt;
use forest_vm::execution::{
    check_message, explicit_request, explicit_result, implicit_request, implicit_result, ApplyKind,
};
use forest_vm::identifiers::{Address, Cid};
use forest_vm::message::{
    award_params, cron_message, reward_message, BlockMessages, ChainMessage, SignedMessage,
    UnsignedMessage, BLOCK_GAS_LIMIT, CRON_GAS_LIMIT, REWARD_GAS_LIMIT,
};
use forest_vm::receipt::{ExecutorRet, ExitCode, Receipt};
use multihash_codetable::MultihashDigest;

/// The least amount that is too large to be encoded: 2 to the power of 1016.
fn too_large() -> BigInt {
    let mut bytes = vec![0; 127];
    bytes.push(1);
    BigInt { bytes }
}

/// The largest amount that can be encoded.
fn largest() -> BigInt {
    let mut bytes = vec![0xff; 127];
    bytes.push(0);
    BigInt { bytes }
}

fn message() -> UnsignedMessage {
    UnsignedMessage {
        version: 0,
        from: Address { bytes: vec![0, 0xe8, 0x07] },
        to: Address { bytes: vec![0, 0xe9, 0x07] },
        sequence: 24,
        value: BigInt::from_i64(256),
        method_num: 3,
        params: vec![1, 2, 3],
        gas_limit: 1000,
        gas_fee_cap: BigInt::from_i64(-1),
        gas_premium: BigInt::zero(),
    }
}

fn executor_ret() -> ExecutorRet {
    ExecutorRet {
        msg_receipt: Receipt {
            exit_code: ExitCode { value: 0 },
            return_data: vec![9],
            gas_used: 70,
        },
        penalty: BigInt::from_i64(2),
        miner_tip: BigInt::from_i64(3),
        base_fee_burn: BigInt::from_i64(4),
        over_estimation_burn: BigInt::from_i64(5),
        refund: BigInt::from_i64(6),
        gas_refund: 7,
        gas_burned: 8,
        failure_info: Some("boom".to_string()),
        exec_trace: vec!["call".to_string()],
    }
}

#[test]
fn message_is_a_tuple_of_its_fields() {
    let expected = vec![
        0x8a, 0x00, 0x43, 0x00, 0xe9, 0x07, 0x43, 0x00, 0xe8, 0x07, 0x18, 0x18, 0x43, 0x00, 0x01,
        0x00, 0x19, 0x03, 0xe8, 0x42, 0x01, 0x01, 0x40, 0x03, 0x43, 0x01, 0x02, 0x03,
    ];
    assert_eq!(message().marshal_cbor(), Ok(expected));
}

#[test]
fn encoding_is_that_of_the_executor() {
    let ours = message();
    let theirs = fvm_shared::message::Message {
        version: 0,
        from: fvm_shared::address::Address::new_id(1000),
        to: fvm_shared::address::Address::new_id(1001),
        sequence: 24,
        value: fvm_shared::econ::TokenAmount::from_atto(256),
        method_num: 3,
        params: fvm_ipld_encoding::RawBytes::new(vec![1, 2, 3]),
        gas_limit: 1000,
        gas_fee_cap: fvm_shared::econ::TokenAmount::from_atto(-1),
        gas_premium: fvm_shared::econ::TokenAmount::from_atto(0),
    };
    assert_eq!(ours.marshal_cbor().unwrap(), fvm_ipld_encoding::to_vec(&theirs).unwrap());
}

#[test]
fn cron_message_has_no_funds_and_no_params() {
    let message = cron_message(5);
    assert_eq!(message.version, 0);
    assert_eq!(message.from.bytes, vec![0, 0]);
    assert_eq!(message.to.bytes, vec![0, 3]);
    assert_eq!(message.sequence, 5);
    assert_eq!(message.method_num, 2);
    assert_eq!(message.gas_limit, 100_000_000_000_000);
    assert!(message.params.is_empty());
    assert!(message.value == BigInt::zero());
    assert!(message.gas_fee_cap == BigInt::zero());
    assert!(message.gas_premium == BigInt::zero());
    let expected = vec![
        0x8a, 0x00, 0x42, 0x00, 0x03, 0x42, 0x00, 0x00, 0x05, 0x40, 0x1b, 0x00, 0x00, 0x5a, 0xf3,
        0x10, 0x7a, 0x40, 0x00, 0x40, 0x40, 0x02, 0x40,
    ];
    assert_eq!(message.marshal_cbor(), Ok(expected));
}

#[test]
fn reward_message_carries_its_params() {
    let message = reward_message(-1, vec![7]);
    assert_eq!(message.from.bytes, vec![0, 0]);
    assert_eq!(message.to.bytes, vec![0, 2]);
    assert_eq!(message.sequence, u64::MAX);
    assert_eq!(message.method_num, 2);
    assert_eq!(message.gas_limit, 1 << 30);
    assert_eq!(message.params, vec![7]);
}

#[test]
fn negative_epoch_is_counted_down() {
    assert_eq!(cron_message(i64::MIN).sequence, 1 << 63);
    assert_eq!(cron_message(-2).sequence, u64::MAX - 1);
    assert_eq!(cron_message(i64::MAX).sequence, i64::MAX as u64);
}

#[test]
fn gas_limits_are_those_of_the_protocol() {
    assert_eq!(BLOCK_GAS_LIMIT, 10_000_000_000);
    assert_eq!(CRON_GAS_LIMIT, BLOCK_GAS_LIMIT * 10000);
    assert_eq!(REWARD_GAS_LIMIT, 1 << 30);
}

#[test]
fn system_actors_are_those_of_the_protocol() {
    let system = fvm_shared::address::Address::new_id(0).to_bytes();
    let reward = fvm_shared::address::Address::new_id(2).to_bytes();
    let cron = fvm_shared::address::Address::new_id(3).to_bytes();
    assert_eq!(cron_message(1).from.bytes, system);
    assert_eq!(reward_message(1, Vec::new()).to.bytes, reward);
    assert_eq!(cron_message(1).to.bytes, cron);
}

#[test]
fn cid_is_a_blake2b_digest_of_the_encoding() {
    let mut expected = vec![0x01, 0x71, 0xa0, 0xe4, 0x02, 0x20];
    expected.extend_from_slice(&[
        0x65, 0x02, 0x2c, 0x7e, 0xbb, 0xf9, 0x47, 0xab, 0xd1, 0x8a, 0xad, 0x25, 0x20, 0xe5, 0x66,
        0xfe, 0xd0, 0xfc, 0x8b, 0xf0, 0xaa, 0x99, 0x11, 0xb3, 0x06, 0x4f, 0x8b, 0x0c, 0xab, 0x32,
        0xdb, 0xd9,
    ]);
    assert_eq!(cron_message(5).cid().unwrap().bytes, expected);
}

#[test]
fn cid_can_be_read_back() {
    let message = message();
    let encoding = message.marshal_cbor().unwrap();
    let digest = multihash_codetable::Code::Blake2b256.digest(&encoding);
    let read = cid::Cid::try_from(message.cid().unwrap().bytes.as_slice()).unwrap();
    assert_eq!(read, cid::Cid::new_v1(0x71, digest));
}

#[test]
fn signed_message_comes_with_its_bytes_and_its_identifier() {
    let signed = ChainMessage::Signed(SignedMessage::new(
        message(),
        Ok(vec![0x82, 0x00, 0x01]),
        Ok(Cid { bytes: vec![1, 0x71, 9] }),
    ));
    assert_eq!(signed.marshal_cbor(), Ok(vec![0x82, 0x00, 0x01]));
    assert_eq!(signed.cid().unwrap().bytes, vec![1, 0x71, 9]);
    assert_eq!(signed.message().sequence, 24);
    let copy = signed.clone();
    assert_eq!(copy.marshal_cbor(), Ok(vec![0x82, 0x00, 0x01]));
    assert_eq!(copy.cid().unwrap().bytes, vec![1, 0x71, 9]);
}

#[test]
fn unsigned_message_is_identified_by_its_encoding() {
    let chain = ChainMessage::Unsigned(message());
    assert_eq!(chain.marshal_cbor(), message().marshal_cbor());
    assert_eq!(chain.cid().unwrap().bytes, message().cid().unwrap().bytes);
}

#[test]
fn too_large_an_amount_has_no_encoding() {
    for field in 0..3 {
        let mut bad = message();
        let mut good = message();
        match field {
            0 => {
                bad.value = too_large();
                good.value = largest();
            }
            1 => {
                bad.gas_fee_cap = too_large();
                good.gas_fee_cap = largest();
            }
            _ => {
                bad.gas_premium = too_large();
                good.gas_premium = largest();
            }
        }
        assert!(bad.marshal_cbor().is_err());
        assert!(bad.cid().is_err());
        assert!(ChainMessage::Unsigned(bad).cid().is_err());
        assert!(good.marshal_cbor().is_ok());
        assert!(good.cid().is_ok());
    }
}

#[test]
fn signed_message_can_be_without_an_encoding() {
    let mut inner = message();
    inner.value = too_large();
    let encoding = inner.marshal_cbor();
    let cid = inner.cid();
    let error = encoding.clone().unwrap_err();
    let signed = ChainMessage::Signed(SignedMessage::new(inner, encoding, cid));
    assert_eq!(signed.marshal_cbor(), Err(error.clone()));
    assert_eq!(signed.cid().unwrap_err(), error);
    assert_eq!(signed.clone().marshal_cbor(), Err(error));
    let unidentified = SignedMessage::new(message(), Ok(vec![1]), Err("none".to_string()));
    assert_eq!(unidentified.marshal_cbor(), Ok(vec![1]));
    assert_eq!(unidentified.cid().unwrap_err(), "none");
    assert_eq!(unidentified.message().sequence, 24);
}

#[test]
fn award_params_are_a_tuple() {
    let block = BlockMessages {
        miner: Address { bytes: vec![0, 0xe8, 0x07] },
        messages: Vec::new(),
        win_count: 1,
    };
    let params = award_params(&block, &BigInt::from_i64(3), &BigInt::from_i64(300));
    let expected = vec![
        0x84, 0x43, 0x00, 0xe8, 0x07, 0x42, 0x00, 0x03, 0x43, 0x00, 0x01, 0x2c, 0x01,
    ];
    assert_eq!(params, Ok(expected));
}

#[test]
fn award_params_of_too_large_amounts_have_no_encoding() {
    let block = BlockMessages {
        miner: Address { bytes: vec![0, 1] },
        messages: Vec::new(),
        win_count: -1,
    };
    let zero = BigInt::zero();
    assert!(award_params(&block, &too_large(), &zero).is_err());
    assert!(award_params(&block, &zero, &too_large()).is_err());
    assert!(award_params(&block, &largest(), &largest()).is_ok());
    assert_eq!(award_params(&block, &zero, &zero), Ok(vec![0x84, 0x42, 0, 1, 0x40, 0x40, 0x20]));
}

#[test]
fn message_without_gas_limit_is_refused() {
    let mut message = message();
    message.gas_limit = 0;
    assert_eq!(check_message(&message), Err("Message has no gas limit set"));
    message.gas_limit = -1;
    assert_eq!(check_message(&message), Err("Message has negative gas limit"));
    message.gas_limit = 1;
    assert_eq!(check_message(&message), Ok(()));
}

#[test]
fn explicit_request_has_the_length_on_chain() {
    let signed = ChainMessage::Signed(SignedMessage::new(
        message(),
        Ok(vec![0; 99]),
        Ok(Cid { bytes: vec![2] }),
    ));
    let request = explicit_request(&signed).unwrap();
    assert_eq!(request.kind, ApplyKind::Explicit);
    assert_eq!(request.raw_length, 99);
    assert_eq!(request.message.params, vec![1, 2, 3]);
    let request = explicit_request(&ChainMessage::Unsigned(message())).unwrap();
    assert_eq!(request.raw_length, 28);
}

#[test]
fn explicit_request_is_refused_before_it_is_encoded() {
    let mut bad = message();
    bad.gas_limit = -5;
    bad.value = too_large();
    let refused = explicit_request(&ChainMessage::Unsigned(bad));
    assert_eq!(refused.unwrap_err(), "Message has negative gas limit");
}

#[test]
fn implicit_request_is_not_checked() {
    let mut message = message();
    message.gas_limit = 0;
    let request = implicit_request(&message);
    assert_eq!(request.kind, ApplyKind::Implicit);
    assert_eq!(request.raw_length, message.marshal_cbor().unwrap().len());
    assert_eq!(request.message.gas_limit, 0);
}

#[test]
fn explicit_result_is_what_the_executor_reports() {
    let ret = explicit_result(Ok(executor_ret())).unwrap();
    assert_eq!(ret.msg_receipt.gas_used, 70);
    assert!(ret.penalty == BigInt::from_i64(2));
    assert!(ret.miner_tip == BigInt::from_i64(3));
    assert_eq!(ret.act_error.unwrap().text, "boom");
    assert_eq!(explicit_result(Err("down".to_string())).unwrap_err(), "down");
}

#[test]
fn implicit_result_is_not_charged_for() {
    let ret = implicit_result(Ok(executor_ret())).unwrap();
    assert_eq!(ret.msg_receipt.gas_used, 0);
    assert_eq!(ret.msg_receipt.return_data, vec![9]);
    assert!(ret.penalty == BigInt::zero());
    assert!(ret.miner_tip == BigInt::zero());
    assert!(ret.base_fee_burn == BigInt::from_i64(4));
    assert!(ret.over_estimation_burn == BigInt::from_i64(5));
    assert!(ret.refund == BigInt::from_i64(6));
    assert_eq!(ret.gas_refund, 7);
    assert_eq!(ret.gas_burned, 8);
    assert_eq!(ret.act_error.unwrap().text, "boom");
    assert_eq!(ret.exec_trace, vec!["call".to_string()]);
    assert_eq!(implicit_result(Err("down".to_string())).unwrap_err(), "down");
}
