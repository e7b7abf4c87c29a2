//! The mathematical model of the program: its state as plain mathematical
//! values, and each operation as a function from state and inputs to the
//! next state or the reason of the refusal.
//!
//! The executable types of the crate view into these types, and every
//! executable operation states its effect through the functions below.

use vstd::prelude::*;
use crate::encoding::{cw20_transfer_from_json, cw20_transfer_json, cw721_transfer_nft_json};
use crate::order::id_lt;

verus! {

/// Where a staked token stands in its lifecycle. A token with no record is
/// absent; after `Unstaking` the only way on is the withdrawal, which removes
/// the record.
#[derive(Clone, Copy, Debug, PartialEq, Eq, Structural)]
pub enum Status {
    Staked,
    Unstaking,
}

/// The reasons for which a call is refused.
pub enum ErrorKind {
    /// A fault of a collaborator: an address that the host rejects, or a
    /// message that cannot be encoded.
    Std,
    /// The caller may not do this.
    Unauthorized,
    /// A deposit notification came from another contract than the registered
    /// collectible contract.
    WrongNftContract,
    /// Not enough funds came with a call. No operation reports it.
    Notenough,
    /// The token has a staking record already.
    AlreadyStaked,
    /// The token has no staking record, or no record is left to reward.
    NotStaked,
    /// The waiting time of the token is not over.
    TimeRemaining,
    /// Staking is switched off.
    CanNotStake,
    /// The last distribution is too recent.
    CanNotDistribute,
    /// The token must be unstaked before it is withdrawn.
    StatusError,
}

/// The staking record of one token.
pub struct TokenRecord {
    pub owner: Seq<char>,
    pub token_id: Seq<char>,
    pub status: Status,
    pub unstake_time: nat,
    pub stake_time: nat,
    pub reward_juno: nat,
    pub reward_hope: nat,
}

/// The program-wide parameters.
pub struct ProgramConfig {
    pub owner: Seq<char>,
    pub denom: Seq<char>,
    pub staking_period: nat,
    pub reward_wallet: Seq<char>,
    pub total_staked: nat,
    pub nft_address: Seq<char>,
    pub token_address: Seq<char>,
    pub can_stake: bool,
    pub last_distribute: nat,
    pub distribute_period: nat,
}

/// The whole state of the program: the configuration and the ledger, the
/// records in ascending order of their token identifiers.
pub struct Program {
    pub config: ProgramConfig,
    pub tokens: Seq<TokenRecord>,
}

/// An amount of one native asset.
pub struct CoinAmount {
    pub denom: Seq<char>,
    pub amount: nat,
}

/// An instruction to a collaborator, queued on the response of a call.
pub enum Message {
    /// Execute the message `msg` on the contract at `contract_addr`, with no
    /// funds attached.
    Execute { contract_addr: Seq<char>, msg: Seq<u8> },
    /// Send `amount` of the native asset `denom` to `to_address`.
    Send { to_address: Seq<char>, denom: Seq<char>, amount: nat },
}

/// The identifiers of the records ascend strictly, so none occurs twice.
pub open spec fn ids_ascending(tokens: Seq<TokenRecord>) -> bool {
    forall|i: int, j: int|
        0 <= i < j < tokens.len() ==> id_lt(
            #[trigger] tokens[i].token_id,
            #[trigger] tokens[j].token_id,
        )
}

/// No record that is still staked has a time at which unstaking was
/// requested.
pub open spec fn timers_rest(tokens: Seq<TokenRecord>) -> bool {
    forall|i: int|
        0 <= i < tokens.len() && (#[trigger] tokens[i]).status == Status::Staked
            ==> tokens[i].unstake_time == 0
}

/// The index of the first record with the identifier `id`, if there is one.
pub open spec fn position(tokens: Seq<TokenRecord>, id: Seq<char>) -> Option<int>
    decreases tokens.len(),
{
    if tokens.len() == 0 {
        None
    } else if tokens[0].token_id == id {
        Some(0)
    } else {
        match position(tokens.drop_first(), id) {
            Some(i) => Some(i + 1),
            None => None,
        }
    }
}

/// The number of leading records whose identifier is below `id`: the place
/// at which a record with that identifier enters an ascending ledger.
pub open spec fn rank(tokens: Seq<TokenRecord>, id: Seq<char>) -> int
    decreases tokens.len(),
{
    if tokens.len() == 0 || !id_lt(tokens[0].token_id, id) {
        0
    } else {
        1 + rank(tokens.drop_first(), id)
    }
}

/// The identifiers of the records, in the order of the ledger.
pub open spec fn token_ids(tokens: Seq<TokenRecord>) -> Seq<Seq<char>> {
    tokens.map_values(|r: TokenRecord| r.token_id)
}

/// The records that belong to `owner`, in the order of the ledger.
pub open spec fn owned_by(tokens: Seq<TokenRecord>, owner: Seq<char>) -> Seq<TokenRecord>
    decreases tokens.len(),
{
    if tokens.len() == 0 {
        Seq::empty()
    } else if tokens.last().owner == owner {
        owned_by(tokens.drop_last(), owner).push(tokens.last())
    } else {
        owned_by(tokens.drop_last(), owner)
    }
}

/// The record has asked to leave and its waiting time is over at `now`: it
/// may be withdrawn, and earns no further reward.
pub open spec fn overdue(record: TokenRecord, now: nat, staking_period: nat) -> bool {
    record.status == Status::Unstaking && now - record.unstake_time >= staking_period
}

/// The number of overdue records.
pub open spec fn overdue_count(tokens: Seq<TokenRecord>, now: nat, staking_period: nat) -> nat
    decreases tokens.len(),
{
    if tokens.len() == 0 {
        0
    } else {
        overdue_count(tokens.drop_last(), now, staking_period) + if overdue(
            tokens.last(),
            now,
            staking_period,
        ) {
            1nat
        } else {
            0nat
        }
    }
}

/// The record after one distribution that gives `share_juno` and
/// `share_hope` to each record that is not overdue.
pub open spec fn credited(
    record: TokenRecord,
    now: nat,
    staking_period: nat,
    share_juno: nat,
    share_hope: nat,
) -> TokenRecord {
    if overdue(record, now, staking_period) {
        record
    } else {
        TokenRecord {
            reward_juno: record.reward_juno + share_juno,
            reward_hope: record.reward_hope + share_hope,
            ..record
        }
    }
}

/// The sum of the amounts in `funds` that are of the asset `denom`.
pub open spec fn native_total(funds: Seq<CoinAmount>, denom: Seq<char>) -> nat
    decreases funds.len(),
{
    if funds.len() == 0 {
        0
    } else {
        native_total(funds.drop_last(), denom) + if funds.last().denom == denom {
            funds.last().amount
        } else {
            0
        }
    }
}

/// The instructions that pay the unclaimed rewards of `record` to its owner:
/// a transfer of the fungible token where that reward is not zero, with
/// `transfer` as its body, then a transfer of the native asset where that
/// reward is not zero.
pub open spec fn payout(config: ProgramConfig, record: TokenRecord, transfer: Seq<u8>) -> Seq<
    Message,
> {
    (if record.reward_hope > 0 {
        seq![Message::Execute { contract_addr: config.token_address, msg: transfer }]
    } else {
        Seq::<Message>::empty()
    }) + (if record.reward_juno > 0 {
        seq![
            Message::Send {
                to_address: record.owner,
                denom: config.denom,
                amount: record.reward_juno,
            },
        ]
    } else {
        Seq::<Message>::empty()
    })
}

/// The instructions that pay the unclaimed rewards of `record` to its
/// owner, the body of the token transfer being what the encoder gives for
/// it. `None` where that transfer cannot be encoded.
pub open spec fn reward_messages(config: ProgramConfig, record: TokenRecord) -> Option<
    Seq<Message>,
> {
    if record.reward_hope > 0 {
        match cw20_transfer_json(record.owner, record.reward_hope as u128) {
            Some(body) => Some(payout(config, record, body)),
            None => None,
        }
    } else {
        Some(payout(config, record, Seq::empty()))
    }
}

/// The ledger after one distribution that gives `share_juno` and
/// `share_hope` to each record that is not overdue.
pub open spec fn credited_all(
    tokens: Seq<TokenRecord>,
    now: nat,
    staking_period: nat,
    share_juno: nat,
    share_hope: nat,
) -> Seq<TokenRecord> {
    tokens.map_values(|r: TokenRecord| credited(r, now, staking_period, share_juno, share_hope))
}

/// Both rewards of every record that is not overdue at `now` can take the
/// shares without passing the largest amount that a record can hold.
pub open spec fn shares_fit(
    tokens: Seq<TokenRecord>,
    now: nat,
    staking_period: nat,
    share_juno: nat,
    share_hope: nat,
) -> bool {
    forall|i: int|
        0 <= i < tokens.len() && !overdue(#[trigger] tokens[i], now, staking_period)
            ==> tokens[i].reward_juno + share_juno <= u128::MAX && tokens[i].reward_hope
            + share_hope <= u128::MAX
}

/// The record with both rewards paid out.
pub open spec fn cleared(record: TokenRecord) -> TokenRecord {
    TokenRecord { reward_juno: 0, reward_hope: 0, ..record }
}

/// What a call comes to: the next state and the instructions to send, or
/// the reason of the refusal.
pub type Outcome = Result<(Program, Seq<Message>), ErrorKind>;

/// The outcome of a call that sends nothing.
pub open spec fn silent(next: Result<Program, ErrorKind>) -> Outcome {
    match next {
        Ok(program) => Ok((program, Seq::empty())),
        Err(k) => Err(k),
    }
}

/// The outcome of a call that sends `messages`, which are `None` where one
/// of them cannot be encoded: the call is then refused.
pub open spec fn sending(next: Result<Program, ErrorKind>, messages: Option<Seq<Message>>)
    -> Outcome {
    match (next, messages) {
        (Ok(program), Some(sent)) => Ok((program, sent)),
        (Ok(_), None) => Err(ErrorKind::Std),
        (Err(k), _) => Err(k),
    }
}

impl Program {
    /// The state is well formed: the ledger ascends strictly by identifier,
    /// the configuration counts exactly its records, and only a record that
    /// is unstaking has a time of that request.
    pub open spec fn wf(self) -> bool {
        &&& ids_ascending(self.tokens)
        &&& timers_rest(self.tokens)
        &&& self.config.total_staked == self.tokens.len()
    }

    /// A record for `id` exists.
    pub open spec fn contains(self, id: Seq<char>) -> bool {
        position(self.tokens, id) is Some
    }

    /// The record for `id`, where one exists.
    pub open spec fn record(self, id: Seq<char>) -> TokenRecord
        recommends
            self.contains(id),
    {
        self.tokens[position(self.tokens, id).unwrap()]
    }

    /// The same state with another configuration.
    pub open spec fn with_config(self, config: ProgramConfig) -> Program {
        Program { config, ..self }
    }

    /// The state in which the program starts at `now`, set up by `owner`:
    /// nothing is staked, staking is switched on, and in place of the two
    /// contract addresses stand the words `nft_address` and `token_address`
    /// until the owner sets them.
    pub open spec fn initial(
        now: nat,
        owner: Seq<char>,
        denom: Seq<char>,
        staking_period: nat,
        reward_wallet: Seq<char>,
        distribute_period: nat,
    ) -> Program {
        Program {
            config: ProgramConfig {
                owner,
                denom,
                staking_period,
                reward_wallet,
                total_staked: 0,
                nft_address: "nft_address"@,
                token_address: "token_address"@,
                can_stake: true,
                last_distribute: now,
                distribute_period,
            },
            tokens: Seq::empty(),
        }
    }

    /// The request of `sender` to replace the configuration by `config`.
    /// Only the owner may ask; `fault` says that the host found the new
    /// value malformed.
    pub open spec fn administer(self, sender: Seq<char>, fault: bool, config: ProgramConfig)
        -> Result<Program, ErrorKind> {
        if sender != self.config.owner {
            Err(ErrorKind::Unauthorized)
        } else if fault {
            Err(ErrorKind::Std)
        } else {
            Ok(self.with_config(config))
        }
    }

    /// A deposit notification from `sender` for `token_id`, deposited by
    /// `depositor`.
    pub open spec fn stake(
        self,
        now: nat,
        sender: Seq<char>,
        depositor: Seq<char>,
        token_id: Seq<char>,
    ) -> Result<Program, ErrorKind> {
        if !self.config.can_stake {
            Err(ErrorKind::CanNotStake)
        } else if sender != self.config.nft_address {
            Err(ErrorKind::WrongNftContract)
        } else if self.contains(token_id) {
            Err(ErrorKind::AlreadyStaked)
        } else {
            Ok(
                Program {
                    config: ProgramConfig {
                        total_staked: self.config.total_staked + 1,
                        ..self.config
                    },
                    tokens: self.tokens.insert(
                        rank(self.tokens, token_id),
                        TokenRecord {
                            owner: depositor,
                            token_id,
                            status: Status::Staked,
                            unstake_time: 0,
                            stake_time: now,
                            reward_juno: 0,
                            reward_hope: 0,
                        },
                    ),
                },
            )
        }
    }

    /// The request of `sender` to unstake `token_id`. A repeated request
    /// starts the waiting time anew.
    pub open spec fn unstake(self, now: nat, sender: Seq<char>, token_id: Seq<char>) -> Result<
        Program,
        ErrorKind,
    > {
        if !self.contains(token_id) {
            Err(ErrorKind::NotStaked)
        } else if self.record(token_id).owner != sender {
            Err(ErrorKind::Unauthorized)
        } else {
            Ok(
                Program {
                    tokens: self.tokens.update(
                        position(self.tokens, token_id).unwrap(),
                        TokenRecord {
                            status: Status::Unstaking,
                            unstake_time: now,
                            ..self.record(token_id)
                        },
                    ),
                    ..self
                },
            )
        }
    }

    /// The request of `sender` to withdraw `token_id`.
    pub open spec fn withdraw(self, now: nat, sender: Seq<char>, token_id: Seq<char>) -> Result<
        Program,
        ErrorKind,
    > {
        if !self.contains(token_id) {
            Err(ErrorKind::NotStaked)
        } else if self.record(token_id).owner != sender {
            Err(ErrorKind::Unauthorized)
        } else if self.record(token_id).status == Status::Staked {
            Err(ErrorKind::StatusError)
        } else if now - self.record(token_id).unstake_time < self.config.staking_period {
            Err(ErrorKind::TimeRemaining)
        } else {
            Ok(
                Program {
                    config: ProgramConfig {
                        total_staked: (self.config.total_staked - 1) as nat,
                        ..self.config
                    },
                    tokens: self.tokens.remove(position(self.tokens, token_id).unwrap()),
                },
            )
        }
    }

    /// Whether `sender` may claim the rewards of `token_id`.
    pub open spec fn claimable(self, sender: Seq<char>, token_id: Seq<char>) -> Result<
        (),
        ErrorKind,
    > {
        if !self.contains(token_id) {
            Err(ErrorKind::NotStaked)
        } else if self.record(token_id).owner != sender {
            Err(ErrorKind::Unauthorized)
        } else {
            Ok(())
        }
    }

    /// The state after the rewards of `token_id` were paid out.
    pub open spec fn clear_rewards(self, token_id: Seq<char>) -> Program
        recommends
            self.contains(token_id),
    {
        Program {
            tokens: self.tokens.update(
                position(self.tokens, token_id).unwrap(),
                cleared(self.record(token_id)),
            ),
            ..self
        }
    }

    /// The claim of `sender` on the rewards of each of `token_ids`, in turn:
    /// the state with those rewards paid out, and the instructions that pay
    /// them. The first identifier that may not be claimed, or whose transfer
    /// cannot be encoded, refuses the whole claim.
    pub open spec fn claim(self, sender: Seq<char>, token_ids: Seq<Seq<char>>) -> Result<
        (Program, Seq<Message>),
        ErrorKind,
    >
        decreases token_ids.len(),
    {
        if token_ids.len() == 0 {
            Ok((self, Seq::<Message>::empty()))
        } else {
            match self.claim(sender, token_ids.drop_last()) {
                Err(e) => Err(e),
                Ok((before, sent)) => match before.claimable(sender, token_ids.last()) {
                    Err(e) => Err(e),
                    Ok(_) => match reward_messages(
                        before.config,
                        before.record(token_ids.last()),
                    ) {
                        None => Err(ErrorKind::Std),
                        Some(more) => Ok((before.clear_rewards(token_ids.last()), sent + more)),
                    },
                },
            }
        }
    }

    /// The instructions of a withdrawal of `token_id` by `sender`: the
    /// return of the token, then the payment of its unclaimed rewards. `None`
    /// where a transfer cannot be encoded.
    pub open spec fn withdraw_messages(self, sender: Seq<char>, token_id: Seq<char>) -> Option<
        Seq<Message>,
    > {
        match (
            cw721_transfer_nft_json(sender, token_id),
            reward_messages(self.config, self.record(token_id)),
        ) {
            (Some(body), Some(rewards)) => Some(
                seq![Message::Execute { contract_addr: self.config.nft_address, msg: body }]
                    + rewards,
            ),
            _ => None,
        }
    }

    /// The instruction of a distribution: the transfer of `token_balance`
    /// units of the fungible token from `sender` to `custody`, the program's
    /// own address. `None` where it cannot be encoded.
    pub open spec fn distribute_messages(
        self,
        sender: Seq<char>,
        custody: Seq<char>,
        token_balance: u128,
    ) -> Option<Seq<Message>> {
        match cw20_transfer_from_json(sender, custody, token_balance) {
            Some(body) => Some(
                seq![Message::Execute { contract_addr: self.config.token_address, msg: body }],
            ),
            None => None,
        }
    }

    /// The instructions of a sweep: the transfer of `amount_hope` units of
    /// the fungible token to `sender`, then that of `amount_juno` units of
    /// the native asset. `None` where the token transfer cannot be encoded.
    pub open spec fn sweep_messages(self, sender: Seq<char>, amount_juno: u128, amount_hope: u128)
        -> Option<Seq<Message>> {
        match cw20_transfer_json(sender, amount_hope) {
            Some(body) => Some(
                seq![
                    Message::Execute { contract_addr: self.config.token_address, msg: body },
                    Message::Send {
                        to_address: sender,
                        denom: self.config.denom,
                        amount: amount_juno as nat,
                    },
                ],
            ),
            None => None,
        }
    }

    /// The number of records among which a distribution at `now` divides
    /// its pools: the staked total less the overdue records.
    pub open spec fn eligible(self, now: nat) -> int {
        self.config.total_staked - overdue_count(self.tokens, now, self.config.staking_period)
    }

    /// Why a distribution asked for by `sender` at `now` is refused, if it
    /// is.
    pub open spec fn distribution_refused(self, now: nat, sender: Seq<char>) -> Option<ErrorKind> {
        if sender != self.config.reward_wallet {
            Some(ErrorKind::Unauthorized)
        } else if now - self.config.last_distribute < self.config.distribute_period {
            Some(ErrorKind::CanNotDistribute)
        } else if self.tokens.len() == 0 || self.eligible(now) == 0 {
            Some(ErrorKind::NotStaked)
        } else {
            None
        }
    }

    /// What each record that is not overdue at `now` gets of a pool: the
    /// pool divided by the number of eligible records, rounded down.
    pub open spec fn share(self, now: nat, pool: nat) -> nat {
        (pool / self.eligible(now) as nat) as nat
    }

    /// A distribution of `native` and `token_balance` at `now` stays within
    /// what the machine can hold: the native total is a `u128`, and so is
    /// every reward after its share was added.
    pub open spec fn distribution_fits(self, now: nat, native: nat, token_balance: nat) -> bool {
        &&& native <= u128::MAX
        &&& shares_fit(
            self.tokens,
            now,
            self.config.staking_period,
            self.share(now, native),
            self.share(now, token_balance),
        )
    }

    /// The request of `sender` to distribute `native` units of the native
    /// asset and `token_balance` units of the fungible token. What the
    /// division leaves over goes to no record.
    pub open spec fn distribute(
        self,
        now: nat,
        sender: Seq<char>,
        native: nat,
        token_balance: nat,
    ) -> Result<Program, ErrorKind> {
        match self.distribution_refused(now, sender) {
            Some(e) => Err(e),
            None => Ok(
                Program {
                    config: ProgramConfig { last_distribute: now, ..self.config },
                    tokens: credited_all(
                        self.tokens,
                        now,
                        self.config.staking_period,
                        self.share(now, native),
                        self.share(now, token_balance),
                    ),
                },
            ),
        }
    }
}

} // verus!
