//! Why the messages of a tipset could not be applied.

use crate::identifiers::Address;
use crate::receipt::ExitCode;
use vstd::prelude::*;
use vstd::string::StringExecFns;

verus! {

/// Why the messages of a tipset, or the end of an epoch, could not be applied.
#[derive(Debug)]
pub enum ApplyError {
    /// Something has no encoding.
    Encoding(String),
    /// A message could not be applied.
    Message(String),
    /// The callback refused a result.
    Callback(String),
    /// The actor that awards block rewards failed.
    Reward { miner: Address, error: String },
    /// The message that awards a block reward ended with another code than that of success.
    RewardExit(ExitCode),
    /// The actor that ends epochs failed.
    Cron(String),
}

/// The contents of an `ApplyError`.
#[verifier::ext_equal]
pub enum ErrorView {
    Encoding(Seq<char>),
    Message(Seq<char>),
    Callback(Seq<char>),
    Reward(Seq<u8>, Seq<char>),
    RewardExit(u32),
    Cron(Seq<char>),
}

impl View for ApplyError {
    type V = ErrorView;

    open spec fn view(&self) -> ErrorView {
        match self {
            ApplyError::Encoding(text) => ErrorView::Encoding(text@),
            ApplyError::Message(text) => ErrorView::Message(text@),
            ApplyError::Callback(text) => ErrorView::Callback(text@),
            ApplyError::Reward { miner, error } => ErrorView::Reward(miner@, error@),
            ApplyError::RewardExit(code) => ErrorView::RewardExit(code.value),
            ApplyError::Cron(text) => ErrorView::Cron(text@),
        }
    }
}

/// The text of an exit code for debugging: what `format!("{:?}", ..)` makes of
/// `fvm_shared::error::ExitCode::new(value)`.
pub uninterp spec fn exit_code_text(value: u32) -> Seq<char>;

/// Calls `fvm_shared::error::ExitCode::new` and formats the code with `{:?}`. The contract names
/// the text, which depends on the code alone: `Debug` is derived there, and the layout of what a
/// derived `Debug` writes is not fixed.
#[verifier::external_body]
fn debug_exit_code(code: ExitCode) -> (text: String)
    ensures
        text@ == exit_code_text(code.value),
{
    format!("{:?}", fvm_shared::error::ExitCode::new(code.value))
}

/// How an address reads behind the letter of its network, or the text of the error for bytes that
/// are no address: the text of what `fvm_shared::address::Address::from_bytes` returns.
pub uninterp spec fn address_text(address: Seq<u8>) -> Result<Seq<char>, Seq<char>>;

/// Calls `fvm_shared::address::Address::from_bytes` and formats the address, or the error for
/// bytes that are no address. The text of an address begins with the letter of the network that
/// the process is set to, `f` for the main network and `t` for a test network: which of the two is
/// left open. The contract names what stands behind the letter, and the text of the error: both
/// depend on the bytes alone, as does whether they are an address.
#[verifier::external_body]
fn display_address(address: &Address) -> (text: Result<String, String>)
    ensures
        match text {
            Ok(text) => address_text(address@) matches Ok(rest) && (text@ == seq!['f'] + rest
                || text@ == seq!['t'] + rest),
            Err(error) => address_text(address@) == Err::<Seq<char>, Seq<char>>(error@),
        },
{
    match fvm_shared::address::Address::from_bytes(&address.bytes) {
        Ok(address) => Ok(address.to_string()),
        Err(error) => Err(error.to_string()),
    }
}

/// The text of the error of the reward actor, for a miner whose address reads `miner`.
pub open spec fn reward_text(miner: Seq<char>, error: Seq<char>) -> Seq<char> {
    "failed to apply reward message for miner "@ + miner + ": "@ + error
}

/// The text of the error of the reward actor, for a miner whose address reads `miner`.
pub fn describe_reward_error(miner: &str, error: &str) -> (text: String)
    ensures
        text@ == reward_text(miner@, error@),
        text@ == "failed to apply reward message for miner "@ + miner@ + ": "@ + error@,
{
    "failed to apply reward message for miner ".to_string().concat(miner).concat(": ").concat(error)
}

impl ErrorView {
    /// Whether `text` is the text of the error. Where it holds the address of a miner, the first
    /// letter of the address stands for the network that the process is set to. Bytes that are no
    /// address are replaced by what is wrong with them.
    pub open spec fn described_by(self, text: Seq<char>) -> bool {
        match self {
            ErrorView::Encoding(error) => text == error,
            ErrorView::Message(error) => text == error,
            ErrorView::Callback(error) => text == error,
            ErrorView::Reward(miner, error) => match address_text(miner) {
                Ok(rest) => text == reward_text(seq!['f'] + rest, error) || text == reward_text(
                    seq!['t'] + rest,
                    error,
                ),
                Err(fault) => text == reward_text(fault, error),
            },
            ErrorView::RewardExit(code) => text == "reward application message failed (exit: "@
                + exit_code_text(code) + ")"@,
            ErrorView::Cron(error) => text == "failed to apply block cron message: "@ + error,
        }
    }
}

impl ApplyError {
    /// The text of the error.
    pub fn describe(&self) -> (text: String)
        ensures
            self@.described_by(text@),
    {
        match self {
            ApplyError::Encoding(text) => text.clone(),
            ApplyError::Message(text) => text.clone(),
            ApplyError::Callback(text) => text.clone(),
            ApplyError::Reward { miner, error } => {
                let address = match display_address(miner) {
                    Ok(address) => address,
                    Err(fault) => fault,
                };
                describe_reward_error(address.as_str(), error.as_str())
            },
            ApplyError::RewardExit(code) => {
                let code = debug_exit_code(*code);
                "reward application message failed (exit: ".to_string().concat(
                    code.as_str(),
                ).concat(")")
            },
            ApplyError::Cron(text) => {
                "failed to apply block cron message: ".to_string().concat(text.as_str())
            },
        }
    }
}

} // verus!
