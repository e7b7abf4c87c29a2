//! The errors with which a call is refused.

use vstd::prelude::*;
use vstd::std_specs::convert::FromSpecImpl;
use cosmwasm_std::StdError;
use crate::model::ErrorKind;

verus! {

/// `cosmwasm_std::StdError`, the error of the host's standard library. The
/// crate hands such a value on and never looks inside.
#[verifier::external_type_specification]
#[verifier::external_body]
pub struct ExStdError(StdError);

/// Why a call was refused. A refused call changes nothing.
#[derive(Debug)]
pub enum ContractError {
    /// A fault reported by the host's standard library.
    Std(StdError),
    /// The caller may not do this.
    Unauthorized {},
    /// A deposit notification came from another contract than the registered
    /// collectible contract.
    WrongNftContract {},
    /// Not enough funds came with a call. No operation reports it.
    Notenough {},
    /// The token has a staking record already.
    AlreadyStaked {},
    /// The token has no staking record, or no record is left to reward.
    NotStaked {},
    /// The waiting time of the token is not over.
    TimeRemaining {},
    /// Staking is switched off.
    CanNotStake {},
    /// The last distribution is too recent.
    CanNotDistribute {},
    /// The token must be unstaked before it is withdrawn.
    StatusError {},
}

impl View for ContractError {
    type V = ErrorKind;

    open spec fn view(&self) -> ErrorKind {
        match self {
            ContractError::Std(_) => ErrorKind::Std,
            ContractError::Unauthorized {  } => ErrorKind::Unauthorized,
            ContractError::WrongNftContract {  } => ErrorKind::WrongNftContract,
            ContractError::Notenough {  } => ErrorKind::Notenough,
            ContractError::AlreadyStaked {  } => ErrorKind::AlreadyStaked,
            ContractError::NotStaked {  } => ErrorKind::NotStaked,
            ContractError::TimeRemaining {  } => ErrorKind::TimeRemaining,
            ContractError::CanNotStake {  } => ErrorKind::CanNotStake,
            ContractError::CanNotDistribute {  } => ErrorKind::CanNotDistribute,
            ContractError::StatusError {  } => ErrorKind::StatusError,
        }
    }
}

impl From<StdError> for ContractError {
    fn from(e: StdError) -> (r: ContractError) {
        ContractError::Std(e)
    }
}

impl FromSpecImpl<StdError> for ContractError {
    open spec fn obeys_from_spec() -> bool {
        true
    }

    open spec fn from_spec(e: StdError) -> ContractError {
        ContractError::Std(e)
    }
}

impl ContractError {
    /// The message of the error.
    pub fn message(&self) -> (r: String)
        ensures
            !(self is Std) ==> r@ == self@.message(),
    {
        match self {
            ContractError::Std(e) => std_error_message(e),
            ContractError::Unauthorized {  } => "Unauthorized".to_string(),
            ContractError::WrongNftContract {  } => "Wrong nft contract error".to_string(),
            ContractError::Notenough {  } => "Not enough funds".to_string(),
            ContractError::AlreadyStaked {  } => "Alreay staked".to_string(),
            ContractError::NotStaked {  } => "Not staked".to_string(),
            ContractError::TimeRemaining {  } => "Time remaining yet".to_string(),
            ContractError::CanNotStake {  } => "Can not stake".to_string(),
            ContractError::CanNotDistribute {  } => "Can not distribute".to_string(),
            ContractError::StatusError {  } => "Stkaing process".to_string(),
        }
    }
}

impl ErrorKind {
    /// The message of an error of this kind, but for `Std`, whose message is
    /// that of the fault it carries.
    pub open spec fn message(self) -> Seq<char> {
        match self {
            ErrorKind::Std => Seq::empty(),
            ErrorKind::Unauthorized => "Unauthorized"@,
            ErrorKind::WrongNftContract => "Wrong nft contract error"@,
            ErrorKind::Notenough => "Not enough funds"@,
            ErrorKind::AlreadyStaked => "Alreay staked"@,
            ErrorKind::NotStaked => "Not staked"@,
            ErrorKind::TimeRemaining => "Time remaining yet"@,
            ErrorKind::CanNotStake => "Can not stake"@,
            ErrorKind::CanNotDistribute => "Can not distribute"@,
            ErrorKind::StatusError => "Stkaing process"@,
        }
    }
}

/// The text that `cosmwasm_std::StdError` displays for the fault. Nothing is
/// claimed of it.
#[verifier::external_body]
fn std_error_message(e: &StdError) -> String {
    e.to_string()
}

} // verus!
