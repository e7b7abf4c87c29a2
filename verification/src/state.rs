//! The stored state: the configuration record, the staking records, and
//! the two together as the whole state of the program.

use vstd::prelude::*;
use crate::error::ContractError;
use crate::ledger::Ledger;
use crate::model::{
    overdue, timers_rest, Outcome, Program, ProgramConfig, Status, TokenRecord,
};
use crate::msg::Response;

verus! {

/// The configuration record of the program.
#[derive(Debug, PartialEq)]
pub struct State {
    /// Who controls the administrative operations.
    pub owner: String,
    /// The currency of the native rewards.
    pub denom: String,
    /// Seconds between the request to unstake and the earliest withdrawal.
    pub staking_period: u64,
    /// Who may trigger a distribution and supplies the rewards.
    pub reward_wallet: String,
    /// The number of staking records.
    pub total_staked: u128,
    /// The address of the collectible contract.
    pub nft_address: String,
    /// The address of the fungible-token contract.
    pub token_address: String,
    /// Whether new stakes are accepted.
    pub can_stake: bool,
    /// The time of the last distribution.
    pub last_distribute: u64,
    /// Least number of seconds between two distributions.
    pub distribute_period: u64,
}

impl View for State {
    type V = ProgramConfig;

    open spec fn view(&self) -> ProgramConfig {
        ProgramConfig {
            owner: self.owner@,
            denom: self.denom@,
            staking_period: self.staking_period as nat,
            reward_wallet: self.reward_wallet@,
            total_staked: self.total_staked as nat,
            nft_address: self.nft_address@,
            token_address: self.token_address@,
            can_stake: self.can_stake,
            last_distribute: self.last_distribute as nat,
            distribute_period: self.distribute_period as nat,
        }
    }
}

impl Clone for State {
    fn clone(&self) -> (r: State)
        ensures
            r@ == self@,
    {
        State {
            owner: self.owner.clone(),
            denom: self.denom.clone(),
            staking_period: self.staking_period,
            reward_wallet: self.reward_wallet.clone(),
            total_staked: self.total_staked,
            nft_address: self.nft_address.clone(),
            token_address: self.token_address.clone(),
            can_stake: self.can_stake,
            last_distribute: self.last_distribute,
            distribute_period: self.distribute_period,
        }
    }
}

/// The staking record of one token.
#[derive(Debug, PartialEq)]
pub struct TokenInfo {
    /// Who deposited the token: rewards and the withdrawn token go there.
    pub owner: String,
    /// The identifier of the token, the key of the record.
    pub token_id: String,
    pub status: Status,
    /// When unstaking was last requested; 0 while the token is staked.
    pub unstake_time: u64,
    /// When the token was staked.
    pub stake_time: u64,
    /// The unclaimed reward in the native asset.
    pub reward_juno: u128,
    /// The unclaimed reward in the fungible token.
    pub reward_hope: u128,
}

impl View for TokenInfo {
    type V = TokenRecord;

    open spec fn view(&self) -> TokenRecord {
        TokenRecord {
            owner: self.owner@,
            token_id: self.token_id@,
            status: self.status,
            unstake_time: self.unstake_time as nat,
            stake_time: self.stake_time as nat,
            reward_juno: self.reward_juno as nat,
            reward_hope: self.reward_hope as nat,
        }
    }
}

impl TokenInfo {
    /// Whether the token has asked to leave and its waiting time of
    /// `staking_period` seconds is over at `now`.
    pub fn is_overdue(&self, now: u64, staking_period: u64) -> (b: bool)
        ensures
            b == overdue(self@, now as nat, staking_period as nat),
    {
        match self.status {
            Status::Staked => false,
            Status::Unstaking => now >= self.unstake_time && now - self.unstake_time
                >= staking_period,
        }
    }
}

impl Clone for TokenInfo {
    fn clone(&self) -> (r: TokenInfo)
        ensures
            r@ == self@,
    {
        TokenInfo {
            owner: self.owner.clone(),
            token_id: self.token_id.clone(),
            status: self.status,
            unstake_time: self.unstake_time,
            stake_time: self.stake_time,
            reward_juno: self.reward_juno,
            reward_hope: self.reward_hope,
        }
    }
}

/// The state of the program: the configuration record and the ledger.
#[derive(Debug, PartialEq)]
pub struct Contract {
    pub config: State,
    pub tokens: Ledger,
}

impl View for Contract {
    type V = Program;

    open spec fn view(&self) -> Program {
        Program { config: self.config@, tokens: self.tokens@ }
    }
}

/// The call that led from the state `before` to the state `after` and
/// returned `r` came to `outcome`: where the outcome is a next state and
/// instructions, `after` is that state and `r` hands out these instructions;
/// where it is a refusal, `r` is an error of that kind and the state is as
/// it was.
pub open spec fn answers(
    before: Program,
    outcome: Outcome,
    after: Program,
    r: Result<Response, ContractError>,
) -> bool {
    match outcome {
        Ok((next, sent)) => r matches Ok(response) && response@ == sent && after == next,
        Err(k) => r matches Err(e) && e@ == k && after == before,
    }
}

impl Contract {
    /// The state is well formed: the ledger ascends strictly by identifier,
    /// the configuration counts exactly its records, and only a record that
    /// is unstaking has a time of that request.
    pub open spec fn wf(&self) -> bool {
        self@.wf()
    }

    /// The state made of `config` and `records`, if it is well formed: the
    /// identifiers of the records ascend strictly, the configuration counts
    /// exactly the records, and only a record that is unstaking has a time
    /// of that request.
    pub fn from_parts(config: State, records: Vec<TokenInfo>) -> (r: Option<Contract>)
        ensures
            match r {
                Some(contract) => contract@ == (Program {
                    config: config@,
                    tokens: records@.map_values(|t: TokenInfo| t@),
                }) && contract.wf(),
                None => !(Program {
                    config: config@,
                    tokens: records@.map_values(|t: TokenInfo| t@),
                }).wf(),
            },
    {
        if config.total_staked != records.len() as u128 {
            return None;
        }
        let ghost all = records@.map_values(|t: TokenInfo| t@);
        let mut i: usize = 0;
        while i < records.len()
            invariant
                i <= records@.len(),
                all == records@.map_values(|t: TokenInfo| t@),
                timers_rest(all.take(i as int)),
            decreases records@.len() - i,
        {
            let staked = match records[i].status {
                Status::Staked => true,
                Status::Unstaking => false,
            };
            if staked && records[i].unstake_time != 0 {
                assert(all[i as int] == records@[i as int]@);
                return None;
            }
            assert forall|j: int|
                0 <= j < i + 1 && (#[trigger] all.take(i + 1)[j]).status
                    == Status::Staked implies all.take(i + 1)[j].unstake_time == 0 by {
                if j < i {
                    assert(all.take(i as int)[j] == all.take(i + 1)[j]);
                }
            }
            i += 1;
        }
        assert(all.take(i as int) =~= all);
        match Ledger::from_records(records) {
            Some(tokens) => Some(Contract { config, tokens }),
            None => None,
        }
    }
}

impl Clone for Contract {
    fn clone(&self) -> (r: Contract)
        ensures
            r@ == self@,
    {
        Contract { config: self.config.clone(), tokens: self.tokens.clone() }
    }
}

} // verus!
