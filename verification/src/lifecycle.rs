//! The staking lifecycle of a token: staked on deposit, unstaking on
//! request, gone with the withdrawal.

use vstd::prelude::*;
use crate::state::{answers, Contract, TokenInfo};
use crate::auth::{is_collectible_contract, is_record_owner};
use crate::encoding::encode_cw721_transfer_nft;
use crate::error::ContractError;
use crate::ledger::{lemma_insert_keeps_timers, lemma_rank};
use crate::model::{
    payout, position, rank, sending, silent, ErrorKind, Message, Program, ProgramConfig, Status,
};
use crate::msg::{Cw721ReceiveMsg, Env, Instruction, MessageInfo, Response};
use crate::rewards::{body_of, encode_reward_transfer, reward_instructions};

verus! {

/// Stakes the token that `rcv_msg` announces, for its depositor. The
/// announcement must come from the registered collectible contract, staking
/// must be switched on, and the token must not be staked already.
pub fn execute_stake_nft(
    contract: &mut Contract,
    env: Env,
    info: MessageInfo,
    rcv_msg: Cw721ReceiveMsg,
) -> (r: Result<Response, ContractError>)
    requires
        old(contract).wf(),
    ensures
        final(contract).wf(),
        answers(
            old(contract)@,
            silent(old(contract)@.stake(
                env.time as nat,
                info.sender@,
                rcv_msg.sender@,
                rcv_msg.token_id@,
            )),
            final(contract)@,
            r,
        ),
{
    if !contract.config.can_stake {
        return Err(ContractError::CanNotStake {  });
    }
    if !is_collectible_contract(&contract.config, &info.sender) {
        return Err(ContractError::WrongNftContract {  });
    }
    if contract.tokens.find(&rcv_msg.token_id).is_some() {
        return Err(ContractError::AlreadyStaked {  });
    }
    let ghost before = contract@;
    contract.tokens.insert(
        TokenInfo {
            owner: rcv_msg.sender,
            token_id: rcv_msg.token_id,
            status: Status::Staked,
            unstake_time: 0,
            stake_time: env.time,
            reward_juno: 0,
            reward_hope: 0,
        },
    );
    proof {
        contract.tokens.lemma_len_fits();
        lemma_rank(before.tokens, rcv_msg.token_id@);
        lemma_insert_keeps_timers(
            before.tokens,
            rank(before.tokens, rcv_msg.token_id@),
            contract@.tokens[rank(before.tokens, rcv_msg.token_id@)],
        );
    }
    contract.config.total_staked = contract.config.total_staked + 1;
    Ok(Response::new())
}

/// Starts the waiting time of `token_id` at the request of its owner. A
/// repeated request starts it anew.
pub fn execute_unstake_nft(
    contract: &mut Contract,
    env: Env,
    info: MessageInfo,
    token_id: String,
) -> (r: Result<Response, ContractError>)
    requires
        old(contract).wf(),
    ensures
        final(contract).wf(),
        answers(
            old(contract)@,
            silent(old(contract)@.unstake(env.time as nat, info.sender@, token_id@)),
            final(contract)@,
            r,
        ),
{
    let index = match contract.tokens.find(&token_id) {
        Some(index) => index,
        None => {
            return Err(ContractError::NotStaked {  });
        },
    };
    if !is_record_owner(contract.tokens.get(index), &info.sender) {
        return Err(ContractError::Unauthorized {  });
    }
    contract.tokens.mark_unstaking(index, env.time);
    Ok(Response::new())
}

impl Contract {
    /// Decides whether `sender` may withdraw `token_id` at `now`, and finds
    /// the record.
    pub fn withdraw_check(&self, now: u64, sender: &String, token_id: &String) -> (r: Result<
        usize,
        ContractError,
    >)
        ensures
            match r {
                Ok(i) => self@.withdraw(now as nat, sender@, token_id@) is Ok && position(
                    self@.tokens,
                    token_id@,
                ) == Some(i as int) && i < self@.tokens.len(),
                Err(e) => self@.withdraw(now as nat, sender@, token_id@) == Err::<
                    Program,
                    ErrorKind,
                >(e@),
            },
    {
        let index = match self.tokens.find(token_id) {
            Some(index) => index,
            None => {
                return Err(ContractError::NotStaked {  });
            },
        };
        let record = self.tokens.get(index);
        if !is_record_owner(record, sender) {
            return Err(ContractError::Unauthorized {  });
        }
        match record.status {
            Status::Staked => {
                return Err(ContractError::StatusError {  });
            },
            Status::Unstaking => {},
        }
        if now < record.unstake_time || now - record.unstake_time < self.config.staking_period {
            return Err(ContractError::TimeRemaining {  });
        }
        Ok(index)
    }
}

impl Contract {
    /// Takes the record at `index` out of the ledger. The response returns
    /// the token to the owner of the record, with the message `body` to the
    /// collectible contract, and then pays the unclaimed rewards, the token
    /// transfer with `transfer` as its body.
    pub fn finish_withdrawal(
        &mut self,
        index: usize,
        body: Vec<u8>,
        transfer: Option<Vec<u8>>,
    ) -> (r: Response)
        requires
            old(self).wf(),
            index < old(self)@.tokens.len(),
            old(self)@.tokens[index as int].reward_hope > 0 ==> transfer is Some,
        ensures
            final(self)@ == (Program {
                config: ProgramConfig {
                    total_staked: (old(self)@.config.total_staked - 1) as nat,
                    ..old(self)@.config
                },
                tokens: old(self)@.tokens.remove(index as int),
            }),
            final(self).wf(),
            r@ == seq![
                Message::Execute { contract_addr: old(self)@.config.nft_address, msg: body@ },
            ] + payout(old(self)@.config, old(self)@.tokens[index as int], body_of(transfer)),
    {
        let mut rewards = reward_instructions(&self.config, self.tokens.get(index), transfer);
        let mut response = Response::new();
        response.add_message(
            Instruction::Execute { contract_addr: self.config.nft_address.clone(), msg: body },
        );
        let ghost first = response@;
        let ghost rest = rewards@.map_values(|m: Instruction| m@);
        response.messages.append(&mut rewards);
        assert(response@ =~= first + rest);
        self.tokens.remove(index);
        self.config.total_staked = self.config.total_staked - 1;
        response
    }
}

/// Withdraws `token_id` at the request of its owner, once its waiting time
/// is over: the record goes, the token returns to the owner, and the
/// unclaimed rewards are paid out. The return of the token is queued first.
pub fn execute_withdraw_nft(
    contract: &mut Contract,
    env: Env,
    info: MessageInfo,
    token_id: String,
) -> (r: Result<Response, ContractError>)
    requires
        old(contract).wf(),
    ensures
        final(contract).wf(),
        answers(
            old(contract)@,
            sending(
                old(contract)@.withdraw(env.time as nat, info.sender@, token_id@),
                old(contract)@.withdraw_messages(info.sender@, token_id@),
            ),
            final(contract)@,
            r,
        ),
{
    let index = match contract.withdraw_check(env.time, &info.sender, &token_id) {
        Ok(index) => index,
        Err(e) => {
            return Err(e);
        },
    };
    let transfer = match encode_reward_transfer(contract.tokens.get(index)) {
        Ok(transfer) => transfer,
        Err(e) => {
            return Err(ContractError::Std(e));
        },
    };
    let body = match encode_cw721_transfer_nft(&info.sender, &token_id) {
        Ok(body) => body,
        Err(e) => {
            return Err(ContractError::Std(e));
        },
    };
    Ok(contract.finish_withdrawal(index, body, transfer))
}

} // verus!
