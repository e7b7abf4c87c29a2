//! Rewards: the periodic distribution of a pool among the eligible records,
//! and the claim of what a record has gathered.

use vstd::prelude::*;
use cosmwasm_std::StdError;
use crate::auth::{is_record_owner, is_reward_wallet};
use crate::state::{answers, Contract, State, TokenInfo};
use crate::encoding::{cw20_transfer_json, encode_cw20_transfer, encode_cw20_transfer_from};
use crate::error::ContractError;
use crate::ledger::lemma_position;
use crate::model::{
    cleared, credited_all, native_total, overdue_count, payout, position, sending, shares_fit,
    CoinAmount, ErrorKind, Message, Program, ProgramConfig, TokenRecord,
};
use crate::msg::{Coin, Env, Instruction, MessageInfo, Response};

verus! {

/// No more records are overdue than there are records.
pub proof fn lemma_overdue_count_bound(tokens: Seq<TokenRecord>, now: nat, staking_period: nat)
    ensures
        overdue_count(tokens, now, staking_period) <= tokens.len(),
    decreases tokens.len(),
{
    if tokens.len() > 0 {
        lemma_overdue_count_bound(tokens.drop_last(), now, staking_period);
    }
}

/// The total of a prefix of the funds is at most the total of all.
pub proof fn lemma_native_total_prefix(funds: Seq<CoinAmount>, denom: Seq<char>, n: int)
    requires
        0 <= n <= funds.len(),
    ensures
        native_total(funds.take(n), denom) <= native_total(funds, denom),
    decreases funds.len() - n,
{
    if n < funds.len() {
        lemma_native_total_prefix(funds, denom, n + 1);
        assert(funds.take(n + 1).drop_last() =~= funds.take(n));
    } else {
        assert(funds.take(n) =~= funds);
    }
}

/// The sum of the amounts in `funds` that are of the asset `denom`, where a
/// `u128` can hold it.
pub fn native_amount(funds: &Vec<Coin>, denom: &String) -> (r: Option<u128>)
    ensures
        match r {
            Some(n) => n == native_total(funds@.map_values(|c: Coin| c@), denom@),
            None => native_total(funds@.map_values(|c: Coin| c@), denom@) > u128::MAX,
        },
{
    let ghost all = funds@.map_values(|c: Coin| c@);
    let mut sum: u128 = 0;
    let mut i: usize = 0;
    assert(all.take(0) =~= Seq::<CoinAmount>::empty());
    while i < funds.len()
        invariant
            i <= funds@.len(),
            all == funds@.map_values(|c: Coin| c@),
            sum == native_total(all.take(i as int), denom@),
        decreases funds@.len() - i,
    {
        assert(all.take(i + 1).drop_last() =~= all.take(i as int));
        assert(all.take(i + 1).last() == funds@[i as int]@);
        if funds[i].denom == *denom {
            match sum.checked_add(funds[i].amount) {
                Some(s) => {
                    sum = s;
                },
                None => {
                    proof {
                        lemma_native_total_prefix(all, denom@, i + 1);
                    }
                    return None;
                },
            }
        }
        i += 1;
    }
    assert(all.take(i as int) =~= all);
    Some(sum)
}

/// The body of a transfer: the bytes given, or no bytes where none are
/// given.
pub open spec fn body_of(transfer: Option<Vec<u8>>) -> Seq<u8> {
    match transfer {
        Some(body) => body@,
        None => Seq::empty(),
    }
}

/// The instructions that pay the unclaimed rewards of `record` to its owner:
/// a transfer of the fungible token where that reward is not zero, with
/// `transfer` as its body, then a transfer of the native asset where that
/// reward is not zero.
pub fn reward_instructions(config: &State, record: &TokenInfo, transfer: Option<Vec<u8>>) -> (r:
    Vec<Instruction>)
    requires
        record.reward_hope > 0 ==> transfer is Some,
    ensures
        r@.map_values(|m: Instruction| m@) == payout(config@, record@, body_of(transfer)),
{
    let mut r: Vec<Instruction> = Vec::new();
    if record.reward_hope > 0 {
        r.push(
            Instruction::Execute {
                contract_addr: config.token_address.clone(),
                msg: transfer.unwrap(),
            },
        );
    }
    if record.reward_juno > 0 {
        r.push(
            Instruction::Send {
                to_address: record.owner.clone(),
                denom: config.denom.clone(),
                amount: record.reward_juno,
            },
        );
    }
    assert(r@.map_values(|m: Instruction| m@) =~= payout(config@, record@, body_of(transfer)));
    r
}

/// Encodes the transfer that pays the fungible reward of `record` to its
/// owner, where there is one to pay.
pub(crate) fn encode_reward_transfer(record: &TokenInfo) -> (r: Result<Option<Vec<u8>>, StdError>)
    ensures
        match r {
            Ok(Some(body)) => record.reward_hope > 0 && cw20_transfer_json(
                record.owner@,
                record.reward_hope,
            ) == Some(body@),
            Ok(None) => record.reward_hope == 0,
            Err(_) => record.reward_hope > 0 && cw20_transfer_json(
                record.owner@,
                record.reward_hope,
            ) is None,
        },
{
    if record.reward_hope > 0 {
        match encode_cw20_transfer(&record.owner, record.reward_hope) {
            Ok(body) => Ok(Some(body)),
            Err(e) => Err(e),
        }
    } else {
        Ok(None)
    }
}

impl Contract {
    /// Decides whether `sender` may distribute rewards at `now`, and among
    /// how many records: the staked total less the records that are overdue.
    pub fn distribution_check(&self, now: u64, sender: &String) -> (r: Result<u128, ContractError>)
        requires
            self.wf(),
        ensures
            match r {
                Ok(n) => self@.distribution_refused(now as nat, sender@) is None && n
                    == self@.eligible(now as nat) && n > 0,
                Err(e) => self@.distribution_refused(now as nat, sender@) == Some(e@),
            },
    {
        if !is_reward_wallet(&self.config, sender) {
            return Err(ContractError::Unauthorized {  });
        }
        if now < self.config.last_distribute || now - self.config.last_distribute
            < self.config.distribute_period {
            return Err(ContractError::CanNotDistribute {  });
        }
        if self.tokens.len() == 0 {
            return Err(ContractError::NotStaked {  });
        }
        let overdue = self.tokens.count_overdue(now, self.config.staking_period);
        proof {
            lemma_overdue_count_bound(
                self.tokens@,
                now as nat,
                self.config.staking_period as nat,
            );
        }
        let eligible: u128 = self.config.total_staked - overdue as u128;
        if eligible == 0 {
            return Err(ContractError::NotStaked {  });
        }
        Ok(eligible)
    }

    /// Whether a distribution asked for by `info.sender` at `env.time`, of
    /// the funds sent along and of `token_balance`, stays within what the
    /// machine can hold, as `execute_distribute_reward` requires. A
    /// distribution that is refused anyhow fits.
    pub fn distribution_fits(&self, env: &Env, info: &MessageInfo, token_balance: u128) -> (b: bool)
        requires
            self.wf(),
        ensures
            b == (self@.distribution_refused(env.time as nat, info.sender@) is None
                ==> self@.distribution_fits(
                env.time as nat,
                native_total(info.funds_view(), self@.config.denom),
                token_balance as nat,
            )),
    {
        let eligible = match self.distribution_check(env.time, &info.sender) {
            Ok(eligible) => eligible,
            Err(_) => {
                return true;
            },
        };
        match native_amount(&info.funds, &self.config.denom) {
            None => false,
            Some(native) => self.tokens.shares_fit(
                env.time,
                self.config.staking_period,
                native / eligible,
                token_balance / eligible,
            ),
        }
    }

    /// Books a distribution at `now` of the pools `native` and
    /// `token_balance` among `eligible` records: every record that is not
    /// overdue gets its share of each pool, rounded down, and the time of the
    /// last distribution is `now`. The response asks the token contract, with
    /// the message `body`, to move the fungible pool into the program's
    /// custody.
    pub fn finish_distribution(
        &mut self,
        now: u64,
        eligible: u128,
        native: u128,
        token_balance: u128,
        body: Vec<u8>,
    ) -> (r: Response)
        requires
            old(self).wf(),
            eligible > 0,
            shares_fit(
                old(self)@.tokens,
                now as nat,
                old(self)@.config.staking_period,
                (native / eligible) as nat,
                (token_balance / eligible) as nat,
            ),
        ensures
            final(self)@ == (Program {
                config: ProgramConfig { last_distribute: now as nat, ..old(self)@.config },
                tokens: credited_all(
                    old(self)@.tokens,
                    now as nat,
                    old(self)@.config.staking_period,
                    (native / eligible) as nat,
                    (token_balance / eligible) as nat,
                ),
            }),
            final(self).wf(),
            r@ == seq![
                Message::Execute { contract_addr: old(self)@.config.token_address, msg: body@ },
            ],
    {
        self.tokens.credit_all(
            now,
            self.config.staking_period,
            native / eligible,
            token_balance / eligible,
        );
        self.config.last_distribute = now;
        let mut response = Response::new();
        response.add_message(
            Instruction::Execute { contract_addr: self.config.token_address.clone(), msg: body },
        );
        assert(response@ =~= seq![
            Message::Execute { contract_addr: self.config.token_address@, msg: body@ },
        ]);
        response
    }
}

/// Once a claim is refused, it stays refused however many identifiers
/// follow.
pub proof fn lemma_claim_refused_early(
    program: Program,
    sender: Seq<char>,
    token_ids: Seq<Seq<char>>,
    n: int,
)
    requires
        0 <= n <= token_ids.len(),
        program.claim(sender, token_ids.take(n)) is Err,
    ensures
        program.claim(sender, token_ids) == program.claim(sender, token_ids.take(n)),
    decreases token_ids.len() - n,
{
    if n < token_ids.len() {
        assert(token_ids.take(n + 1).drop_last() =~= token_ids.take(n));
        lemma_claim_refused_early(program, sender, token_ids, n + 1);
    } else {
        assert(token_ids.take(n) =~= token_ids);
    }
}

impl Contract {
    /// Decides whether `sender` may claim the rewards of `token_id`, and
    /// finds the record.
    pub fn claim_check(&self, sender: &String, token_id: &String) -> (r: Result<
        usize,
        ContractError,
    >)
        ensures
            match r {
                Ok(i) => self@.claimable(sender@, token_id@) is Ok && position(
                    self@.tokens,
                    token_id@,
                ) == Some(i as int) && i < self@.tokens.len(),
                Err(e) => self@.claimable(sender@, token_id@) == Err::<(), ErrorKind>(e@),
            },
    {
        match self.tokens.find(token_id) {
            None => Err(ContractError::NotStaked {  }),
            Some(i) => {
                proof {
                    lemma_position(self@.tokens, token_id@);
                }
                if !is_record_owner(self.tokens.get(i), sender) {
                    Err(ContractError::Unauthorized {  })
                } else {
                    Ok(i)
                }
            },
        }
    }

    /// Pays out the rewards of the record at `index`: queues on `response`
    /// the instructions that pay them to the owner, the token transfer with
    /// `transfer` as its body, and sets both rewards to zero.
    pub fn finish_claim(&mut self, index: usize, transfer: Option<Vec<u8>>, response: &mut Response)
        requires
            old(self).wf(),
            index < old(self)@.tokens.len(),
            old(self)@.tokens[index as int].reward_hope > 0 ==> transfer is Some,
        ensures
            final(self)@ == (Program {
                tokens: old(self)@.tokens.update(
                    index as int,
                    cleared(old(self)@.tokens[index as int]),
                ),
                ..old(self)@
            }),
            final(self).wf(),
            final(response)@ == old(response)@ + payout(
                old(self)@.config,
                old(self)@.tokens[index as int],
                body_of(transfer),
            ),
    {
        let mut more = reward_instructions(&self.config, self.tokens.get(index), transfer);
        let ghost sent = response@;
        let ghost added = more@.map_values(|m: Instruction| m@);
        response.messages.append(&mut more);
        assert(response@ =~= sent + added);
        self.tokens.clear_rewards(index);
    }
}

/// Pays out the rewards of each of `token_ids` to `info.sender`, their
/// owner, and sets them to zero. One identifier that has no record or
/// another owner refuses the whole claim.
pub fn execute_get_reward(
    contract: &mut Contract,
    _env: Env,
    info: MessageInfo,
    token_ids: Vec<String>,
) -> (r: Result<Response, ContractError>)
    requires
        old(contract).wf(),
    ensures
        final(contract).wf(),
        answers(
            old(contract)@,
            old(contract)@.claim(info.sender@, token_ids@.map_values(|s: String| s@)),
            final(contract)@,
            r,
        ),
{
    let ghost start = contract@;
    let ghost ids = token_ids@.map_values(|s: String| s@);
    let mut work = contract.clone();
    let mut response = Response::new();
    let mut i: usize = 0;
    assert(ids.take(0) =~= Seq::<Seq<char>>::empty());
    while i < token_ids.len()
        invariant
            i <= token_ids@.len(),
            ids == token_ids@.map_values(|s: String| s@),
            start.wf(),
            contract@ == start,
            work.wf(),
            start.claim(info.sender@, ids.take(i as int)) == Ok::<
                (Program, Seq<Message>),
                ErrorKind,
            >((work@, response@)),
        decreases token_ids@.len() - i,
    {
        let ghost before = work@;
        assert(ids.take(i + 1).drop_last() =~= ids.take(i as int));
        assert(ids.take(i + 1).last() == token_ids@[i as int]@);
        let index = match work.claim_check(&info.sender, &token_ids[i]) {
            Ok(index) => index,
            Err(e) => {
                proof {
                    lemma_claim_refused_early(start, info.sender@, ids, i + 1);
                }
                return Err(e);
            },
        };
        let transfer = match encode_reward_transfer(work.tokens.get(index)) {
            Ok(transfer) => transfer,
            Err(e) => {
                proof {
                    lemma_claim_refused_early(start, info.sender@, ids, i + 1);
                }
                return Err(ContractError::Std(e));
            },
        };
        work.finish_claim(index, transfer, &mut response);
        assert(work@ == before.clear_rewards(token_ids@[i as int]@));
        i += 1;
    }
    assert(ids.take(i as int) =~= ids);
    *contract = work;
    Ok(response)
}

/// Distributes the native funds sent along, as far as they are of the
/// configured asset, and `token_balance` units of the fungible token among
/// the records that are not overdue, each getting the same share, rounded
/// down; then asks the token contract to move `token_balance` units from the
/// caller into the program's custody.
pub fn execute_distribute_reward(
    contract: &mut Contract,
    env: Env,
    info: MessageInfo,
    token_balance: u128,
) -> (r: Result<Response, ContractError>)
    requires
        old(contract).wf(),
        old(contract)@.distribution_refused(env.time as nat, info.sender@) is None ==> old(
            contract,
        )@.distribution_fits(
            env.time as nat,
            native_total(info.funds_view(), old(contract)@.config.denom),
            token_balance as nat,
        ),
    ensures
        final(contract).wf(),
        answers(
            old(contract)@,
            sending(
                old(contract)@.distribute(
                    env.time as nat,
                    info.sender@,
                    native_total(info.funds_view(), old(contract)@.config.denom),
                    token_balance as nat,
                ),
                old(contract)@.distribute_messages(
                    info.sender@,
                    env.contract_address@,
                    token_balance,
                ),
            ),
            final(contract)@,
            r,
        ),
{
    let eligible = match contract.distribution_check(env.time, &info.sender) {
        Ok(eligible) => eligible,
        Err(e) => {
            return Err(e);
        },
    };
    let body = match encode_cw20_transfer_from(
        &info.sender,
        &env.contract_address,
        token_balance,
    ) {
        Ok(body) => body,
        Err(e) => {
            return Err(ContractError::Std(e));
        },
    };
    let native = native_amount(&info.funds, &contract.config.denom).unwrap();
    Ok(contract.finish_distribution(env.time, eligible, native, token_balance, body))
}

} // verus!
