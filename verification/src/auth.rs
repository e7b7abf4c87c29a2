//! Who may do what: the checks of a caller against the configuration and
//! against a staking record. Every operation that changes the state passes
//! the check that belongs to it before it touches anything.

use vstd::prelude::*;
use crate::state::{State, TokenInfo};

verus! {

/// Whether `caller` is the owner of the program.
pub fn is_owner(config: &State, caller: &String) -> (b: bool)
    ensures
        b == (caller@ == config@.owner),
{
    *caller == config.owner
}

/// Whether `caller` is the wallet that may distribute rewards.
pub fn is_reward_wallet(config: &State, caller: &String) -> (b: bool)
    ensures
        b == (caller@ == config@.reward_wallet),
{
    *caller == config.reward_wallet
}

/// Whether `caller` is the registered collectible contract.
pub fn is_collectible_contract(config: &State, caller: &String) -> (b: bool)
    ensures
        b == (caller@ == config@.nft_address),
{
    *caller == config.nft_address
}

/// Whether `caller` is the one who deposited the token of `record`.
pub fn is_record_owner(record: &TokenInfo, caller: &String) -> (b: bool)
    ensures
        b == (caller@ == record@.owner),
{
    *caller == record.owner
}

} // verus!
