//! What holds of the program whatever calls reach it.
//!
//! The laws speak of the model: of `execution`, which every call of
//! `execute` follows, and of the functions of `Program` behind it.

use vstd::prelude::*;
use vstd::arithmetic::div_mod::{lemma_fundamental_div_mod, lemma_mod_bound};
use crate::contract::execution;
use crate::ledger::{
    lemma_insert_ascending, lemma_insert_keeps_timers, lemma_position, lemma_rank,
    lemma_remove_ascending, lemma_update_ascending,
};
use crate::model::{
    credited, credited_all, ids_ascending, overdue_count, position, rank, timers_rest, ErrorKind,
    Message, Program, Status, TokenRecord,
};
use crate::msg::{Env, ExecuteMsg, MessageInfo};
use crate::order::{id_lt, lemma_id_lt_irreflexive};
use crate::rewards::lemma_overdue_count_bound;

verus! {

/// One call as the host delivers it: the block, the caller, the message,
/// and whether the host found the address that the message carries
/// malformed.
pub struct Call {
    pub env: Env,
    pub info: MessageInfo,
    pub msg: ExecuteMsg,
    pub address_fault: bool,
}

/// The state after `call`: the next state where the call is accepted, the
/// same state where it is refused.
pub open spec fn after(program: Program, call: Call) -> Program {
    match execution(program, call.env, call.info, call.msg, call.address_fault) {
        Ok((next, _)) => next,
        Err(_) => program,
    }
}

/// The state after `calls`, one after the other.
pub open spec fn run(program: Program, calls: Seq<Call>) -> Program
    decreases calls.len(),
{
    if calls.len() == 0 {
        program
    } else {
        after(run(program, calls.drop_last()), calls.last())
    }
}

/// Two ledgers hold the same records but for the rewards.
pub open spec fn same_but_rewards(a: Seq<TokenRecord>, b: Seq<TokenRecord>) -> bool {
    &&& a.len() == b.len()
    &&& forall|i: int|
        0 <= i < a.len() ==> (#[trigger] a[i]).token_id == b[i].token_id && a[i].owner
            == b[i].owner && a[i].status == b[i].status && a[i].unstake_time == b[i].unstake_time
            && a[i].stake_time == b[i].stake_time
}

/// Ledgers that differ in rewards only hold each identifier at the same
/// place.
proof fn lemma_position_same_but_rewards(a: Seq<TokenRecord>, b: Seq<TokenRecord>, id: Seq<char>)
    requires
        same_but_rewards(a, b),
    ensures
        position(a, id) == position(b, id),
    decreases a.len(),
{
    if a.len() > 0 {
        assert(a[0].token_id == b[0].token_id);
        let x = a.drop_first();
        let y = b.drop_first();
        assert forall|i: int| 0 <= i < x.len() implies (#[trigger] x[i]).token_id == y[i].token_id
            && x[i].owner == y[i].owner && x[i].status == y[i].status && x[i].unstake_time
            == y[i].unstake_time && x[i].stake_time == y[i].stake_time by {
            assert(x[i] == a[i + 1]);
            assert(y[i] == b[i + 1]);
        }
        lemma_position_same_but_rewards(x, y, id);
    }
}

/// A ledger that differs from a well-ordered one in rewards only is well
/// ordered too.
proof fn lemma_same_but_rewards_ascending(a: Seq<TokenRecord>, b: Seq<TokenRecord>)
    requires
        same_but_rewards(a, b),
        ids_ascending(a),
        timers_rest(a),
    ensures
        ids_ascending(b),
        timers_rest(b),
{
    assert forall|i: int| 0 <= i < b.len() && (#[trigger] b[i]).status
        == Status::Staked implies b[i].unstake_time == 0 by {
        assert(a[i].status == b[i].status);
    }
    assert forall|i: int, j: int| 0 <= i < j < b.len() implies id_lt(
        #[trigger] b[i].token_id,
        #[trigger] b[j].token_id,
    ) by {
        assert(a[i].token_id == b[i].token_id);
        assert(a[j].token_id == b[j].token_id);
    }
}

/// A record with the identifier `id` at any index means that `position`
/// finds `id`.
proof fn lemma_found(tokens: Seq<TokenRecord>, id: Seq<char>, i: int)
    requires
        0 <= i < tokens.len(),
        tokens[i].token_id == id,
    ensures
        position(tokens, id) is Some,
{
    lemma_position(tokens, id);
}

/// A claim changes rewards only: it keeps the configuration and, but for
/// the rewards, the records.
proof fn lemma_claim_keeps(program: Program, sender: Seq<char>, token_ids: Seq<Seq<char>>)
    ensures
        program.claim(sender, token_ids) matches Ok((next, _)) ==> next.config == program.config
            && same_but_rewards(program.tokens, next.tokens),
    decreases token_ids.len(),
{
    if token_ids.len() > 0 {
        lemma_claim_keeps(program, sender, token_ids.drop_last());
        if let Ok((before, _)) = program.claim(sender, token_ids.drop_last()) {
            let id = token_ids.last();
            if before.claimable(sender, id) is Ok {
                lemma_position(before.tokens, id);
                let next = before.clear_rewards(id);
                assert(same_but_rewards(before.tokens, next.tokens));
                assert forall|i: int| 0 <= i < program.tokens.len() implies (
                #[trigger] program.tokens[i]).token_id == next.tokens[i].token_id
                    && program.tokens[i].owner == next.tokens[i].owner && program.tokens[i].status
                    == next.tokens[i].status && program.tokens[i].unstake_time
                    == next.tokens[i].unstake_time && program.tokens[i].stake_time
                    == next.tokens[i].stake_time by {
                    assert(before.tokens[i].token_id == next.tokens[i].token_id);
                }
            }
        }
    }
}

/// Every accepted call leads from a well-formed state to a well-formed
/// state.
proof fn lemma_after_wf(program: Program, call: Call)
    requires
        program.wf(),
    ensures
        after(program, call).wf(),
{
    let now = call.env.time as nat;
    let sender = call.info.sender@;
    let next = after(program, call);
    match call.msg {
        ExecuteMsg::ReceiveNft(rcv_msg) => {
            let id = rcv_msg.token_id@;
            if program.stake(now, sender, rcv_msg.sender@, id) is Ok {
                lemma_rank(program.tokens, id);
                let r = rank(program.tokens, id);
                lemma_insert_ascending(program.tokens, next.tokens[r]);
                lemma_insert_keeps_timers(program.tokens, r, next.tokens[r]);
            }
        },
        ExecuteMsg::UnstakeNft { token_id } => {
            if program.unstake(now, sender, token_id@) is Ok {
                lemma_position(program.tokens, token_id@);
                let i = position(program.tokens, token_id@).unwrap();
                lemma_update_ascending(program.tokens, i, next.tokens[i]);
            }
        },
        ExecuteMsg::WithdrawNft { token_id } => {
            if program.withdraw(now, sender, token_id@) is Ok {
                lemma_position(program.tokens, token_id@);
                lemma_remove_ascending(
                    program.tokens,
                    position(program.tokens, token_id@).unwrap(),
                );
            }
        },
        ExecuteMsg::GetReward { token_ids } => {
            lemma_claim_keeps(program, sender, token_ids@.map_values(|s: String| s@));
            lemma_same_but_rewards_ascending(program.tokens, next.tokens);
        },
        ExecuteMsg::DistributeReward { token_balance } => {
            assert(same_but_rewards(program.tokens, next.tokens));
            lemma_same_but_rewards_ascending(program.tokens, next.tokens);
        },
        _ => {},
    }
}

/// The staked total always equals the number of records in the ledger:
/// whatever calls reach a well-formed state, accepted or refused, the state
/// stays well formed.
pub proof fn law_total_counts_records(program: Program, calls: Seq<Call>)
    requires
        program.wf(),
    ensures
        run(program, calls).wf(),
        run(program, calls).config.total_staked == run(program, calls).tokens.len(),
    decreases calls.len(),
{
    if calls.len() > 0 {
        law_total_counts_records(program, calls.drop_last());
        lemma_after_wf(run(program, calls.drop_last()), calls.last());
    }
}

/// The state in which the program starts is well formed, so the law above
/// holds of every state that the program can reach.
pub proof fn law_initial_state_wf(
    now: nat,
    owner: Seq<char>,
    denom: Seq<char>,
    staking_period: nat,
    reward_wallet: Seq<char>,
    distribute_period: nat,
)
    ensures
        Program::initial(now, owner, denom, staking_period, reward_wallet, distribute_period).wf(),
{
}

/// In an ascending ledger the record at `i` is the one that `position`
/// finds for its identifier, and no other record has that identifier.
proof fn lemma_position_of_index(tokens: Seq<TokenRecord>, i: int)
    requires
        ids_ascending(tokens),
        0 <= i < tokens.len(),
    ensures
        position(tokens, tokens[i].token_id) == Some(i),
        forall|j: int|
            0 <= j < tokens.len() && j != i ==> (#[trigger] tokens[j]).token_id
                != tokens[i].token_id,
{
    let id = tokens[i].token_id;
    lemma_id_lt_irreflexive(id);
    assert forall|j: int| 0 <= j < tokens.len() && j != i implies (#[trigger] tokens[j]).token_id
        != id by {
        if j < i {
            assert(id_lt(tokens[j].token_id, tokens[i].token_id));
        } else {
            assert(id_lt(tokens[i].token_id, tokens[j].token_id));
        }
    }
    lemma_position(tokens, id);
}

/// No token has two records: in a well-formed state every record is the
/// one that `position` finds for its identifier, and no other record has
/// that identifier.
pub proof fn law_one_record_per_token(program: Program, i: int)
    requires
        program.wf(),
        0 <= i < program.tokens.len(),
    ensures
        position(program.tokens, program.tokens[i].token_id) == Some(i),
        forall|j: int|
            0 <= j < program.tokens.len() && j != i ==> (#[trigger] program.tokens[j]).token_id
                != program.tokens[i].token_id,
{
    lemma_position_of_index(program.tokens, i);
}

/// Where the token `id` stands: `None` while it has no record, else the
/// status of its record.
pub open spec fn phase(program: Program, id: Seq<char>) -> Option<Status> {
    if program.contains(id) {
        Some(program.record(id).status)
    } else {
        None
    }
}

/// A token moves through its lifecycle in one direction only: from absent
/// to staked, from staked to unstaking, from unstaking to absent. No call
/// takes it any other way; most leave it where it stands.
pub proof fn law_lifecycle(program: Program, call: Call, id: Seq<char>)
    requires
        program.wf(),
    ensures
        phase(program, id) is None ==> phase(after(program, call), id) is None || phase(
            after(program, call),
            id,
        ) == Some(Status::Staked),
        phase(program, id) == Some(Status::Staked) ==> phase(after(program, call), id) == Some(
            Status::Staked,
        ) || phase(after(program, call), id) == Some(Status::Unstaking),
        phase(program, id) == Some(Status::Unstaking) ==> phase(after(program, call), id) == Some(
            Status::Unstaking,
        ) || phase(after(program, call), id) is None,
{
    let now = call.env.time as nat;
    let sender = call.info.sender@;
    let next = after(program, call);
    let tokens = program.tokens;
    lemma_after_wf(program, call);
    lemma_position(tokens, id);
    lemma_position(next.tokens, id);
    if next != program {
        match call.msg {
            ExecuteMsg::ReceiveNft(rcv_msg) => {
                let other = rcv_msg.token_id@;
                lemma_rank(tokens, other);
                let r = rank(tokens, other);
                if other == id {
                    lemma_position_of_index(next.tokens, r);
                } else if let Some(p) = position(tokens, id) {
                    let q = if p < r { p } else { p + 1 };
                    assert(next.tokens[q] == tokens[p]);
                    lemma_position_of_index(next.tokens, q);
                } else if let Some(q) = position(next.tokens, id) {
                    let p = if q < r { q } else { q - 1 };
                    assert(next.tokens[q] == tokens[p]);
                }
            },
            ExecuteMsg::UnstakeNft { token_id } => {
                lemma_position(tokens, token_id@);
                if let Some(p) = position(tokens, id) {
                    assert(next.tokens[p].token_id == id);
                    lemma_position_of_index(next.tokens, p);
                } else if let Some(q) = position(next.tokens, id) {
                    assert(tokens[q].token_id == next.tokens[q].token_id);
                }
            },
            ExecuteMsg::WithdrawNft { token_id } => {
                lemma_position(tokens, token_id@);
                let i = position(tokens, token_id@).unwrap();
                lemma_position_of_index(tokens, i);
                if let Some(q) = position(next.tokens, id) {
                    let p = if q < i { q } else { q + 1 };
                    assert(next.tokens[q] == tokens[p]);
                    lemma_position_of_index(tokens, p);
                } else if let Some(p) = position(tokens, id) {
                    if p != i {
                        let q = if p < i { p } else { p - 1 };
                        assert(next.tokens[q] == tokens[p]);
                    }
                }
            },
            ExecuteMsg::GetReward { token_ids } => {
                lemma_claim_keeps(program, sender, token_ids@.map_values(|s: String| s@));
                lemma_position_same_but_rewards(tokens, next.tokens, id);
            },
            ExecuteMsg::DistributeReward { token_balance } => {
                assert(same_but_rewards(tokens, next.tokens));
                lemma_position_same_but_rewards(tokens, next.tokens, id);
            },
            _ => {},
        }
    }
}

/// The call withdraws the token `id`.
pub open spec fn withdraws(call: Call, id: Seq<char>) -> bool {
    call.msg matches ExecuteMsg::WithdrawNft { token_id } && token_id@ == id
}

/// A call that does not withdraw `id` leaves the record of `id` in the
/// ledger.
proof fn lemma_after_contains(program: Program, call: Call, id: Seq<char>)
    requires
        program.wf(),
        program.contains(id),
        !withdraws(call, id),
    ensures
        after(program, call).contains(id),
{
    let now = call.env.time as nat;
    let sender = call.info.sender@;
    let next = after(program, call);
    lemma_position(program.tokens, id);
    let p = position(program.tokens, id).unwrap();
    match call.msg {
        ExecuteMsg::ReceiveNft(rcv_msg) => {
            let other = rcv_msg.token_id@;
            if program.stake(now, sender, rcv_msg.sender@, other) is Ok {
                lemma_rank(program.tokens, other);
                let r = rank(program.tokens, other);
                if p < r {
                    assert(next.tokens[p] == program.tokens[p]);
                    lemma_found(next.tokens, id, p);
                } else {
                    assert(next.tokens[p + 1] == program.tokens[p]);
                    lemma_found(next.tokens, id, p + 1);
                }
            }
        },
        ExecuteMsg::UnstakeNft { token_id } => {
            if program.unstake(now, sender, token_id@) is Ok {
                lemma_position(program.tokens, token_id@);
                assert(next.tokens[p].token_id == id);
                lemma_found(next.tokens, id, p);
            }
        },
        ExecuteMsg::WithdrawNft { token_id } => {
            if next != program {
                lemma_position(program.tokens, token_id@);
                let q = position(program.tokens, token_id@).unwrap();
                assert(program.tokens[q].token_id != program.tokens[p].token_id);
                if p < q {
                    assert(next.tokens[p] == program.tokens[p]);
                    lemma_found(next.tokens, id, p);
                } else {
                    assert(next.tokens[p - 1] == program.tokens[p]);
                    lemma_found(next.tokens, id, p - 1);
                }
            }
        },
        ExecuteMsg::GetReward { token_ids } => {
            lemma_claim_keeps(program, sender, token_ids@.map_values(|s: String| s@));
            lemma_position_same_but_rewards(program.tokens, next.tokens, id);
        },
        ExecuteMsg::DistributeReward { token_balance } => {
            assert(same_but_rewards(program.tokens, next.tokens));
            lemma_position_same_but_rewards(program.tokens, next.tokens, id);
        },
        _ => {},
    }
}

/// A token cannot be staked twice without a withdrawal in between: once
/// `token_id` is staked, and whatever calls follow that do not withdraw it,
/// its record is still there, and no deposit notification for it is
/// accepted. Where staking is switched on and the notification comes from
/// the registered collectible contract, the refusal is `AlreadyStaked`.
pub proof fn law_no_second_stake(
    program: Program,
    staked: Program,
    now: nat,
    sender: Seq<char>,
    depositor: Seq<char>,
    token_id: Seq<char>,
    calls: Seq<Call>,
    again: Call,
)
    requires
        program.wf(),
        program.stake(now, sender, depositor, token_id) == Ok::<Program, ErrorKind>(staked),
        forall|i: int| 0 <= i < calls.len() ==> !withdraws(#[trigger] calls[i], token_id),
        again.msg matches ExecuteMsg::ReceiveNft(rcv_msg) && rcv_msg.token_id@ == token_id,
    ensures
        run(staked, calls).contains(token_id),
        execution(
            run(staked, calls),
            again.env,
            again.info,
            again.msg,
            again.address_fault,
        ) is Err,
        run(staked, calls).config.can_stake && again.info.sender@ == run(
            staked,
            calls,
        ).config.nft_address ==> execution(
            run(staked, calls),
            again.env,
            again.info,
            again.msg,
            again.address_fault,
        ) == Err::<(Program, Seq<Message>), ErrorKind>(ErrorKind::AlreadyStaked),
    decreases calls.len(),
{
    if calls.len() == 0 {
        lemma_rank(program.tokens, token_id);
        lemma_found(staked.tokens, token_id, rank(program.tokens, token_id));
    } else {
        law_no_second_stake(
            program,
            staked,
            now,
            sender,
            depositor,
            token_id,
            calls.drop_last(),
            again,
        );
        lemma_rank(program.tokens, token_id);
        lemma_insert_ascending(
            program.tokens,
            staked.tokens[rank(program.tokens, token_id)],
        );
        law_total_counts_records(staked, calls.drop_last());
        lemma_after_contains(run(staked, calls.drop_last()), calls.last(), token_id);
    }
}

/// A withdrawal by the owner of an unstaking token is refused with
/// `TimeRemaining` before the waiting time is over, and accepted by the
/// state from then on.
pub proof fn law_withdraw_waits(program: Program, now: nat, sender: Seq<char>, token_id: Seq<char>)
    requires
        program.contains(token_id),
        program.record(token_id).owner == sender,
        program.record(token_id).status == Status::Unstaking,
    ensures
        now < program.record(token_id).unstake_time + program.config.staking_period
            ==> program.withdraw(now, sender, token_id) == Err::<Program, ErrorKind>(
            ErrorKind::TimeRemaining,
        ),
        now >= program.record(token_id).unstake_time + program.config.staking_period
            ==> program.withdraw(now, sender, token_id) is Ok,
{
}

/// A distribution among no eligible record is refused with `NotStaked`,
/// where the reward wallet asks for it and the interval since the last
/// distribution has passed.
pub proof fn law_nothing_to_reward(
    program: Program,
    now: nat,
    sender: Seq<char>,
    native: nat,
    token_balance: nat,
)
    requires
        sender == program.config.reward_wallet,
        now - program.config.last_distribute >= program.config.distribute_period,
        program.eligible(now) == 0,
    ensures
        program.distribute(now, sender, native, token_balance) == Err::<Program, ErrorKind>(
            ErrorKind::NotStaked,
        ),
{
}

/// What a distribution added to the native rewards of the records, all
/// together.
pub open spec fn allotted_juno(before: Seq<TokenRecord>, after: Seq<TokenRecord>) -> int
    decreases before.len(),
{
    if before.len() == 0 || after.len() != before.len() {
        0
    } else {
        allotted_juno(before.drop_last(), after.drop_last()) + after.last().reward_juno
            - before.last().reward_juno
    }
}

/// What a distribution added to the fungible rewards of the records, all
/// together.
pub open spec fn allotted_hope(before: Seq<TokenRecord>, after: Seq<TokenRecord>) -> int
    decreases before.len(),
{
    if before.len() == 0 || after.len() != before.len() {
        0
    } else {
        allotted_hope(before.drop_last(), after.drop_last()) + after.last().reward_hope
            - before.last().reward_hope
    }
}

/// What one distribution adds to all rewards together: the share, once
/// for each record that is not overdue.
proof fn lemma_allotted(
    tokens: Seq<TokenRecord>,
    now: nat,
    staking_period: nat,
    share_juno: nat,
    share_hope: nat,
)
    ensures
        allotted_juno(
            tokens,
            credited_all(tokens, now, staking_period, share_juno, share_hope),
        ) == (tokens.len() - overdue_count(tokens, now, staking_period)) * share_juno,
        allotted_hope(
            tokens,
            credited_all(tokens, now, staking_period, share_juno, share_hope),
        ) == (tokens.len() - overdue_count(tokens, now, staking_period)) * share_hope,
    decreases tokens.len(),
{
    let after = credited_all(tokens, now, staking_period, share_juno, share_hope);
    if tokens.len() > 0 {
        let front = tokens.drop_last();
        lemma_allotted(front, now, staking_period, share_juno, share_hope);
        assert(after.drop_last() =~= credited_all(
            front,
            now,
            staking_period,
            share_juno,
            share_hope,
        ));
        assert(after.last() == credited(
            tokens.last(),
            now,
            staking_period,
            share_juno,
            share_hope,
        ));
        let n = front.len() - overdue_count(front, now, staking_period);
        assert((n + 1) * share_juno == n * share_juno + share_juno) by (nonlinear_arith);
        assert((n + 1) * share_hope == n * share_hope + share_hope) by (nonlinear_arith);
    } else {
        assert(0 * share_juno == 0 && 0 * share_hope == 0) by (nonlinear_arith);
    }
}

/// A distribution divides each pool evenly and rounds down: what it adds to
/// the rewards of all records together is the number of eligible records
/// times the share, which is at most the pool; what is left of the pool is
/// the remainder of the division, less than the number of eligible records.
pub proof fn law_pro_rata(
    program: Program,
    next: Program,
    now: nat,
    sender: Seq<char>,
    native: nat,
    token_balance: nat,
)
    requires
        program.wf(),
        program.distribute(now, sender, native, token_balance) == Ok::<Program, ErrorKind>(next),
    ensures
        program.eligible(now) >= 1,
        allotted_juno(program.tokens, next.tokens) == program.eligible(now) * (native
            / program.eligible(now) as nat),
        allotted_hope(program.tokens, next.tokens) == program.eligible(now) * (token_balance
            / program.eligible(now) as nat),
        allotted_juno(program.tokens, next.tokens) <= native,
        allotted_hope(program.tokens, next.tokens) <= token_balance,
        native - allotted_juno(program.tokens, next.tokens) == native % program.eligible(
            now,
        ) as nat,
        token_balance - allotted_hope(program.tokens, next.tokens) == token_balance
            % program.eligible(now) as nat,
        native - allotted_juno(program.tokens, next.tokens) <= program.eligible(now) - 1,
        token_balance - allotted_hope(program.tokens, next.tokens) <= program.eligible(now) - 1,
{
    let e = program.eligible(now);
    lemma_overdue_count_bound(program.tokens, now, program.config.staking_period);
    lemma_allotted(
        program.tokens,
        now,
        program.config.staking_period,
        program.share(now, native),
        program.share(now, token_balance),
    );
    lemma_fundamental_div_mod(native as int, e);
    lemma_fundamental_div_mod(token_balance as int, e);
    lemma_mod_bound(native as int, e);
    lemma_mod_bound(token_balance as int, e);
    assert(native / e as nat >= 0 && token_balance / e as nat >= 0) by (nonlinear_arith)
        requires
            e >= 1,
    ;
}

/// One identifier that may not be claimed refuses the whole claim, wherever
/// it stands in the list: no reward in the list is paid or reset.
pub proof fn law_claim_all_or_nothing(
    program: Program,
    sender: Seq<char>,
    token_ids: Seq<Seq<char>>,
    i: int,
)
    requires
        0 <= i < token_ids.len(),
        program.claimable(sender, token_ids[i]) is Err,
    ensures
        program.claim(sender, token_ids) is Err,
    decreases token_ids.len(),
{
    let front = token_ids.drop_last();
    if i < token_ids.len() - 1 {
        assert(front[i] == token_ids[i]);
        law_claim_all_or_nothing(program, sender, front, i);
    } else {
        lemma_claim_keeps(program, sender, front);
        if let Ok((before, _)) = program.claim(sender, front) {
            lemma_position_same_but_rewards(program.tokens, before.tokens, token_ids[i]);
            lemma_position(program.tokens, token_ids[i]);
            lemma_position(before.tokens, token_ids[i]);
        }
    }
}

/// A claim with one identifier that may not be claimed is refused and
/// changes nothing.
pub proof fn law_refused_claim_changes_nothing(program: Program, call: Call, i: int)
    requires
        call.msg matches ExecuteMsg::GetReward { token_ids } && 0 <= i < token_ids@.len()
            && program.claimable(call.info.sender@, token_ids@[i]@) is Err,
    ensures
        execution(program, call.env, call.info, call.msg, call.address_fault) is Err,
        after(program, call) == program,
{
    if let ExecuteMsg::GetReward { token_ids } = call.msg {
        let ids = token_ids@.map_values(|s: String| s@);
        assert(ids[i] == token_ids@[i]@);
        law_claim_all_or_nothing(program, call.info.sender@, ids, i);
    }
}

/// The call is one of the administrative operations.
pub open spec fn administrative(msg: ExecuteMsg) -> bool {
    match msg {
        ExecuteMsg::SetRewardWallet { .. } => true,
        ExecuteMsg::SetNftAddress { .. } => true,
        ExecuteMsg::SetTokenAddress { .. } => true,
        ExecuteMsg::SetOwner { .. } => true,
        ExecuteMsg::SetStakingPeriod { .. } => true,
        ExecuteMsg::SetDistributePeriod { .. } => true,
        ExecuteMsg::SetStake { .. } => true,
        ExecuteMsg::WithdrawAllMoney { .. } => true,
        _ => false,
    }
}

/// An administrative operation asked for by another than the owner is
/// refused with `Unauthorized`, whatever it carries, and the state stays as
/// it was.
pub proof fn law_admin_needs_owner(program: Program, call: Call)
    requires
        administrative(call.msg),
        call.info.sender@ != program.config.owner,
    ensures
        execution(program, call.env, call.info, call.msg, call.address_fault) == Err::<
            (Program, Seq<Message>),
            ErrorKind,
        >(ErrorKind::Unauthorized),
        after(program, call) == program,
{
}

} // verus!
