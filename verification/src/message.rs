//! Messages, as they stand in blocks and as the interpreter makes them itself.

use crate::amount::{encodable_amount, lemma_zero_is_encodable, BigInt, TokenAmount};
use crate::identifiers::{block_cid, cid_of_block, copy_bytes, id_address, Address, Cid};
use fvm_ipld_encoding::BytesSer;
use fvm_shared::bigint::bigint_ser::BigIntSer;
use vstd::prelude::*;

verus! {

/// A message without a signature.
#[derive(Debug)]
pub struct UnsignedMessage {
    pub version: i64,
    pub from: Address,
    pub to: Address,
    pub sequence: u64,
    pub value: TokenAmount,
    pub method_num: u64,
    pub params: Vec<u8>,
    pub gas_limit: i64,
    pub gas_fee_cap: TokenAmount,
    pub gas_premium: TokenAmount,
}

/// The contents of an `UnsignedMessage`.
#[verifier::ext_equal]
pub struct MessageView {
    pub version: i64,
    pub from: Seq<u8>,
    pub to: Seq<u8>,
    pub sequence: u64,
    pub value: int,
    pub method_num: u64,
    pub params: Seq<u8>,
    pub gas_limit: i64,
    pub gas_fee_cap: int,
    pub gas_premium: int,
}

impl View for UnsignedMessage {
    type V = MessageView;

    open spec fn view(&self) -> MessageView {
        MessageView {
            version: self.version,
            from: self.from@,
            to: self.to@,
            sequence: self.sequence,
            value: self.value@,
            method_num: self.method_num,
            params: self.params@,
            gas_limit: self.gas_limit,
            gas_fee_cap: self.gas_fee_cap@,
            gas_premium: self.gas_premium@,
        }
    }
}

/// What an attempt to encode something came to: the bytes, or the text of the error.
pub open spec fn bytes_view(encoding: Result<Vec<u8>, String>) -> Result<Seq<u8>, Seq<char>> {
    match encoding {
        Ok(bytes) => Ok(bytes@),
        Err(error) => Err(error@),
    }
}

/// What an attempt to identify something came to: the identifier, or the text of the error.
pub open spec fn cid_view(cid: Result<Cid, String>) -> Result<Seq<u8>, Seq<char>> {
    match cid {
        Ok(cid) => Ok(cid@),
        Err(error) => Err(error@),
    }
}

/// The DAG-CBOR form of a message, or the text of the error for which it has none: what
/// `fvm_ipld_encoding::to_vec` returns for the tuple of its fields.
pub uninterp spec fn message_encoding(message: MessageView) -> Result<Seq<u8>, Seq<char>>;

/// Calls `fvm_ipld_encoding::to_vec` on the tuple of the message's fields, with its amounts as
/// `fvm_shared::bigint::bigint_ser` writes them. The contract names the result, which depends on
/// the message alone, and says when there is an encoding: `bigint_ser` refuses an amount whose
/// sign and magnitude take more than 128 bytes, and nothing else is refused while there is memory
/// for the bytes.
#[verifier::external_body]
fn encode_message(m: &UnsignedMessage) -> (encoding: Result<Vec<u8>, String>)
    ensures
        bytes_view(encoding) == message_encoding(m@),
        encoding is Ok <==> m@.encodable(),
{
    let value = num_bigint::BigInt::from_signed_bytes_le(&m.value.bytes);
    let cap = num_bigint::BigInt::from_signed_bytes_le(&m.gas_fee_cap.bytes);
    let premium = num_bigint::BigInt::from_signed_bytes_le(&m.gas_premium.bytes);
    let (to, from, params) = (BytesSer(&m.to.bytes), BytesSer(&m.from.bytes), BytesSer(&m.params));
    let (value, cap, premium) = (BigIntSer(&value), BigIntSer(&cap), BigIntSer(&premium));
    let (limit, method) = (m.gas_limit, m.method_num);
    let fields = (m.version, to, from, m.sequence, value, limit, cap, premium, method, params);
    match fvm_ipld_encoding::to_vec(&fields) {
        Ok(bytes) => Ok(bytes),
        Err(error) => Err(error.to_string()),
    }
}

/// The identifier of a message with the given encoding.
pub open spec fn encoding_cid(encoding: Result<Seq<u8>, Seq<char>>) -> Result<Seq<u8>, Seq<char>> {
    match encoding {
        Ok(bytes) => Ok(block_cid(bytes)),
        Err(error) => Err(error),
    }
}

impl MessageView {
    /// Each of the message's amounts has an encoding.
    pub open spec fn encodable(self) -> bool {
        &&& encodable_amount(self.value)
        &&& encodable_amount(self.gas_fee_cap)
        &&& encodable_amount(self.gas_premium)
    }
}

impl UnsignedMessage {
    /// The limit on the gas that the message may use.
    pub fn gas_limit(&self) -> (limit: i64)
        ensures
            limit == self@.gas_limit,
    {
        self.gas_limit
    }

    /// The DAG-CBOR form of the message.
    pub fn marshal_cbor(&self) -> (encoding: Result<Vec<u8>, String>)
        ensures
            bytes_view(encoding) == message_encoding(self@),
            encoding is Ok <==> self@.encodable(),
    {
        encode_message(self)
    }

    /// The identifier of the message.
    pub fn cid(&self) -> (cid: Result<Cid, String>)
        ensures
            cid_view(cid) == encoding_cid(message_encoding(self@)),
            cid is Ok <==> self@.encodable(),
    {
        match self.marshal_cbor() {
            Ok(bytes) => Ok(cid_of_block(&bytes)),
            Err(error) => Err(error),
        }
    }
}

impl Clone for UnsignedMessage {
    fn clone(&self) -> (copy: UnsignedMessage)
        ensures
            copy@ == self@,
    {
        UnsignedMessage {
            version: self.version,
            from: self.from.clone(),
            to: self.to.clone(),
            sequence: self.sequence,
            value: self.value.clone(),
            method_num: self.method_num,
            params: copy_bytes(&self.params),
            gas_limit: self.gas_limit,
            gas_fee_cap: self.gas_fee_cap.clone(),
            gas_premium: self.gas_premium.clone(),
        }
    }
}

/// A message with a signature.
#[derive(Debug)]
pub struct SignedMessage {
    message: UnsignedMessage,
    encoding: Result<Vec<u8>, String>,
    cid: Result<Cid, String>,
}

/// The contents of a `SignedMessage`.
#[verifier::ext_equal]
pub struct SignedView {
    /// The message that was signed.
    pub message: MessageView,
    /// The bytes as which the signed message is stored on chain, or the text of the error for
    /// which it has no such form.
    pub encoding: Result<Seq<u8>, Seq<char>>,
    /// The identifier of the signed message, or the text of the error for which it has none.
    pub cid: Result<Seq<u8>, Seq<char>>,
}

impl View for SignedMessage {
    type V = SignedView;

    closed spec fn view(&self) -> SignedView {
        SignedView {
            message: self.message@,
            encoding: bytes_view(self.encoding),
            cid: cid_view(self.cid),
        }
    }
}

impl SignedMessage {
    /// A message without an encoding has no identifier.
    #[verifier::type_invariant]
    spec fn wf(self) -> bool {
        self.cid is Ok ==> self.encoding is Ok
    }

    /// The message that was signed, with the bytes as which the signed message is stored on chain
    /// and its identifier, or the texts of the errors for which it has none. What is identified
    /// has an encoding.
    pub fn new(
        message: UnsignedMessage,
        encoding: Result<Vec<u8>, String>,
        cid: Result<Cid, String>,
    ) -> (signed: SignedMessage)
        requires
            cid is Ok ==> encoding is Ok,
        ensures
            signed@ == (SignedView {
                message: message@,
                encoding: bytes_view(encoding),
                cid: cid_view(cid),
            }),
    {
        SignedMessage { message, encoding, cid }
    }

    /// The message that was signed.
    pub fn message(&self) -> (message: &UnsignedMessage)
        ensures
            message@ == self@.message,
    {
        &self.message
    }

    /// The bytes as which the signed message is stored on chain.
    pub fn marshal_cbor(&self) -> (encoding: Result<Vec<u8>, String>)
        ensures
            bytes_view(encoding) == self@.encoding,
    {
        match &self.encoding {
            Ok(bytes) => Ok(copy_bytes(bytes)),
            Err(error) => Err(error.clone()),
        }
    }

    /// The identifier of the signed message.
    pub fn cid(&self) -> (cid: Result<Cid, String>)
        ensures
            cid_view(cid) == self@.cid,
            cid is Ok ==> self@.encoding is Ok,
    {
        proof {
            use_type_invariant(self);
        }
        match &self.cid {
            Ok(cid) => Ok(cid.clone()),
            Err(error) => Err(error.clone()),
        }
    }
}

impl Clone for SignedMessage {
    fn clone(&self) -> (copy: SignedMessage)
        ensures
            copy@ == self@,
    {
        SignedMessage::new(self.message.clone(), self.marshal_cbor(), self.cid())
    }
}

/// A message as it stands in a block.
#[derive(Debug)]
pub enum ChainMessage {
    Unsigned(UnsignedMessage),
    Signed(SignedMessage),
}

/// The contents of a `ChainMessage`.
#[verifier::ext_equal]
pub enum ChainMessageView {
    Unsigned(MessageView),
    Signed(SignedView),
}

impl View for ChainMessage {
    type V = ChainMessageView;

    open spec fn view(&self) -> ChainMessageView {
        match self {
            ChainMessage::Unsigned(message) => ChainMessageView::Unsigned(message@),
            ChainMessage::Signed(signed) => ChainMessageView::Signed(signed@),
        }
    }
}

impl ChainMessageView {
    /// The message, without its signature.
    pub open spec fn message(self) -> MessageView {
        match self {
            ChainMessageView::Unsigned(message) => message,
            ChainMessageView::Signed(signed) => signed.message,
        }
    }

    /// The bytes as which the message is stored on chain, or the text of the error for which it
    /// has no such form.
    pub open spec fn encoding(self) -> Result<Seq<u8>, Seq<char>> {
        match self {
            ChainMessageView::Unsigned(message) => message_encoding(message),
            ChainMessageView::Signed(signed) => signed.encoding,
        }
    }

    /// The message has a form in which it is stored on chain.
    pub open spec fn encodable(self) -> bool {
        match self {
            ChainMessageView::Unsigned(message) => message.encodable(),
            ChainMessageView::Signed(signed) => signed.encoding is Ok,
        }
    }

    /// The identifier of the message: that of its encoding, or the one that a signed message
    /// comes with.
    pub open spec fn cid(self) -> Result<Seq<u8>, Seq<char>> {
        match self {
            ChainMessageView::Unsigned(message) => encoding_cid(message_encoding(message)),
            ChainMessageView::Signed(signed) => signed.cid,
        }
    }
}

impl ChainMessage {
    /// The message, without its signature.
    pub fn message(&self) -> (message: &UnsignedMessage)
        ensures
            message@ == self@.message(),
    {
        match self {
            ChainMessage::Unsigned(message) => message,
            ChainMessage::Signed(signed) => signed.message(),
        }
    }

    /// The bytes as which the message is stored on chain.
    pub fn marshal_cbor(&self) -> (encoding: Result<Vec<u8>, String>)
        ensures
            bytes_view(encoding) == self@.encoding(),
            encoding is Ok <==> self@.encodable(),
    {
        match self {
            ChainMessage::Unsigned(message) => message.marshal_cbor(),
            ChainMessage::Signed(signed) => signed.marshal_cbor(),
        }
    }

    /// The identifier of the message.
    pub fn cid(&self) -> (cid: Result<Cid, String>)
        ensures
            cid_view(cid) == self@.cid(),
            cid is Ok ==> self@.encodable(),
            self@ is Unsigned && self@.encodable() ==> cid is Ok,
    {
        match self {
            ChainMessage::Unsigned(message) => message.cid(),
            ChainMessage::Signed(signed) => signed.cid(),
        }
    }
}

impl Clone for ChainMessage {
    fn clone(&self) -> (copy: ChainMessage)
        ensures
            copy@ == self@,
    {
        match self {
            ChainMessage::Unsigned(message) => ChainMessage::Unsigned(message.clone()),
            ChainMessage::Signed(signed) => ChainMessage::Signed(signed.clone()),
        }
    }
}

/// Contains all messages to process through the VM as well as miner information for block rewards.
#[derive(Debug)]
pub struct BlockMessages {
    pub miner: Address,
    pub messages: Vec<ChainMessage>,
    pub win_count: i64,
}

/// The contents of a `BlockMessages`.
#[verifier::ext_equal]
pub struct BlockView {
    pub miner: Seq<u8>,
    pub messages: Seq<ChainMessageView>,
    pub win_count: i64,
}

impl View for BlockMessages {
    type V = BlockView;

    open spec fn view(&self) -> BlockView {
        BlockView {
            miner: self.miner@,
            messages: self.messages@.map_values(|message: ChainMessage| message@),
            win_count: self.win_count,
        }
    }
}

/// The number of the system actor.
pub const SYSTEM_ACTOR_ID: u64 = 0;

/// The number of the reward actor.
pub const REWARD_ACTOR_ID: u64 = 2;

/// The number of the cron actor.
pub const CRON_ACTOR_ID: u64 = 3;

/// The method of the reward actor that awards a block reward.
pub const AWARD_BLOCK_REWARD: u64 = 2;

/// The method of the cron actor that ends an epoch.
pub const EPOCH_TICK: u64 = 2;

/// The gas limit of the message that awards a block reward.
pub const REWARD_GAS_LIMIT: i64 = 1073741824;

/// The limit on the gas that the messages of a block may use.
pub const BLOCK_GAS_LIMIT: i64 = 10_000_000_000;

/// The gas limit of the message that ends an epoch: arbitrarily large.
pub const CRON_GAS_LIMIT: i64 = BLOCK_GAS_LIMIT * 10000;

/// The DAG-CBOR form of the parameters of `AwardBlockReward`, or the text of the error for which
/// they have none: what `fvm_ipld_encoding::to_vec` returns for the tuple of the four.
pub uninterp spec fn award_params_encoding(
    miner: Seq<u8>,
    penalty: int,
    gas_reward: int,
    win_count: i64,
) -> Result<Seq<u8>, Seq<char>>;

/// Calls `fvm_ipld_encoding::to_vec` on the tuple of the parameters, with the amounts as
/// `fvm_shared::bigint::bigint_ser` writes them. The contract names the result, which depends on
/// the parameters alone, and says when there is an encoding: `bigint_ser` refuses an amount whose
/// sign and magnitude take more than 128 bytes, and nothing else is refused while there is memory
/// for the bytes.
#[verifier::external_body]
fn encode_award_params(
    miner: &Address,
    penalty: &BigInt,
    gas_reward: &BigInt,
    win_count: i64,
) -> (params: Result<Vec<u8>, String>)
    ensures
        bytes_view(params) == award_params_encoding(miner@, penalty@, gas_reward@, win_count),
        params is Ok <==> (encodable_amount(penalty@) && encodable_amount(gas_reward@)),
{
    let penalty = num_bigint::BigInt::from_signed_bytes_le(&penalty.bytes);
    let gas_reward = num_bigint::BigInt::from_signed_bytes_le(&gas_reward.bytes);
    let amounts = (BigIntSer(&penalty), BigIntSer(&gas_reward));
    let params = (BytesSer(&miner.bytes), amounts.0, amounts.1, win_count);
    match fvm_ipld_encoding::to_vec(&params) {
        Ok(bytes) => Ok(bytes),
        Err(error) => Err(error.to_string()),
    }
}

/// The parameters with which the reward of a block is awarded to its miner.
pub fn award_params(block: &BlockMessages, penalty: &BigInt, gas_reward: &BigInt) -> (params:
    Result<Vec<u8>, String>)
    ensures
        bytes_view(params) == award_params_encoding(
            block@.miner,
            penalty@,
            gas_reward@,
            block@.win_count,
        ),
        params is Ok <==> encodable_amount(penalty@) && encodable_amount(gas_reward@),
{
    encode_award_params(&block.miner, penalty, gas_reward, block.win_count)
}

/// The epoch as the sequence number of a message: a negative one is counted down from 2^64.
pub open spec fn epoch_sequence(epoch: i64) -> u64 {
    if epoch >= 0 {
        epoch as u64
    } else {
        (epoch + 0x1_0000_0000_0000_0000) as u64
    }
}

/// The message without funds with which the system actor calls a method of the actor numbered
/// `to`.
pub open spec fn system_message(
    to: u64,
    method_num: u64,
    params: Seq<u8>,
    epoch: i64,
    gas_limit: i64,
) -> MessageView {
    MessageView {
        version: 0,
        from: id_address(SYSTEM_ACTOR_ID as nat),
        to: id_address(to as nat),
        sequence: epoch_sequence(epoch),
        value: 0,
        method_num,
        params,
        gas_limit,
        gas_fee_cap: 0,
        gas_premium: 0,
    }
}

/// The message that awards a block reward.
pub open spec fn reward_message_view(epoch: i64, params: Seq<u8>) -> MessageView {
    system_message(REWARD_ACTOR_ID, AWARD_BLOCK_REWARD, params, epoch, REWARD_GAS_LIMIT)
}

/// The message that ends an epoch.
pub open spec fn cron_message_view(epoch: i64) -> MessageView {
    system_message(CRON_ACTOR_ID, EPOCH_TICK, Seq::empty(), epoch, CRON_GAS_LIMIT)
}

/// A message without funds from the system actor. The epoch is its sequence number.
fn make_system_message(
    to: u64,
    method_num: u64,
    params: Vec<u8>,
    epoch: i64,
    gas_limit: i64,
) -> (message: UnsignedMessage)
    ensures
        message@ == system_message(to, method_num, params@, epoch, gas_limit),
        message@.encodable(),
{
    proof {
        lemma_zero_is_encodable();
        assert(epoch < 0 ==> epoch as u64 == epoch + 0x1_0000_0000_0000_0000) by (bit_vector);
    }
    UnsignedMessage {
        version: 0,
        from: Address::new_id(SYSTEM_ACTOR_ID),
        to: Address::new_id(to),
        sequence: epoch as u64,
        value: BigInt::zero(),
        method_num,
        params,
        gas_limit,
        gas_fee_cap: BigInt::zero(),
        gas_premium: BigInt::zero(),
    }
}

/// The message that awards a block reward.
pub fn reward_message(epoch: i64, params: Vec<u8>) -> (message: UnsignedMessage)
    ensures
        message@ == reward_message_view(epoch, params@),
        message@.encodable(),
        message.version == 0,
        message.from@ == seq![0u8, 0u8],
        message.to@ == seq![0u8, 2u8],
        message.sequence == if epoch >= 0 {
            epoch as int
        } else {
            epoch + 0x1_0000_0000_0000_0000
        },
        message.value@ == 0,
        message.method_num == 2,
        message.params@ == params@,
        message.gas_limit == 0x4000_0000,
        message.gas_fee_cap@ == 0,
        message.gas_premium@ == 0,
{
    make_system_message(REWARD_ACTOR_ID, AWARD_BLOCK_REWARD, params, epoch, REWARD_GAS_LIMIT)
}

/// The message that ends an epoch.
pub fn cron_message(epoch: i64) -> (message: UnsignedMessage)
    ensures
        message@ == cron_message_view(epoch),
        message@.encodable(),
        message.version == 0,
        message.from@ == seq![0u8, 0u8],
        message.to@ == seq![0u8, 3u8],
        message.sequence == if epoch >= 0 {
            epoch as int
        } else {
            epoch + 0x1_0000_0000_0000_0000
        },
        message.value@ == 0,
        message.method_num == 2,
        message.params@.len() == 0,
        message.gas_limit == 100_000_000_000_000,
        message.gas_fee_cap@ == 0,
        message.gas_premium@ == 0,
{
    make_system_message(CRON_ACTOR_ID, EPOCH_TICK, Vec::new(), epoch, CRON_GAS_LIMIT)
}

} // verus!
