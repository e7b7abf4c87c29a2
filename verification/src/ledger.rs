//! The token ledger: the staking records, kept in ascending order of their
//! token identifiers.

use vstd::prelude::*;
use crate::model::{
    cleared, credited, credited_all, ids_ascending, overdue, overdue_count, position, rank,
    shares_fit, timers_rest, Status, TokenRecord,
};
use crate::order::{id_less, id_lt, lemma_id_lt_total, lemma_id_lt_transitive};
use crate::state::TokenInfo;

verus! {

/// Where `position` finds an identifier, and that it finds it wherever a
/// record has it.
pub proof fn lemma_position(tokens: Seq<TokenRecord>, id: Seq<char>)
    ensures
        match position(tokens, id) {
            Some(i) => 0 <= i < tokens.len() && tokens[i].token_id == id && forall|j: int|
                0 <= j < i ==> (#[trigger] tokens[j]).token_id != id,
            None => forall|j: int| 0 <= j < tokens.len() ==> (#[trigger] tokens[j]).token_id != id,
        },
    decreases tokens.len(),
{
    if tokens.len() > 0 && tokens[0].token_id != id {
        let rest = tokens.drop_first();
        lemma_position(rest, id);
        match position(rest, id) {
            Some(i) => {
                assert forall|j: int| 0 <= j < i + 1 implies (#[trigger] tokens[j]).token_id
                    != id by {
                    if j > 0 {
                        assert(tokens[j] == rest[j - 1]);
                    }
                }
            },
            None => {
                assert forall|j: int| 0 <= j < tokens.len() implies (#[trigger] tokens[j]).token_id
                    != id by {
                    if j > 0 {
                        assert(tokens[j] == rest[j - 1]);
                    }
                }
            },
        }
    }
}

/// Where `rank` places an identifier: behind the records below it, and
/// before the first that is not.
pub proof fn lemma_rank(tokens: Seq<TokenRecord>, id: Seq<char>)
    ensures
        0 <= rank(tokens, id) <= tokens.len(),
        forall|j: int| 0 <= j < rank(tokens, id) ==> id_lt((#[trigger] tokens[j]).token_id, id),
        rank(tokens, id) < tokens.len() ==> !id_lt(tokens[rank(tokens, id)].token_id, id),
    decreases tokens.len(),
{
    if tokens.len() > 0 && id_lt(tokens[0].token_id, id) {
        let rest = tokens.drop_first();
        lemma_rank(rest, id);
        assert forall|j: int| 0 <= j < rank(tokens, id) implies id_lt(
            (#[trigger] tokens[j]).token_id,
            id,
        ) by {
            if j > 0 {
                assert(tokens[j] == rest[j - 1]);
            }
        }
        if rank(tokens, id) < tokens.len() {
            assert(tokens[rank(tokens, id)] == rest[rank(rest, id)]);
        }
    }
}

/// The index `i` is the rank of `id` where the records before it are below
/// `id` and the record at `i`, if any, is not.
pub proof fn lemma_rank_is(tokens: Seq<TokenRecord>, id: Seq<char>, i: int)
    requires
        0 <= i <= tokens.len(),
        forall|j: int| 0 <= j < i ==> id_lt((#[trigger] tokens[j]).token_id, id),
        i < tokens.len() ==> !id_lt(tokens[i].token_id, id),
    ensures
        rank(tokens, id) == i,
{
    lemma_rank(tokens, id);
    let r = rank(tokens, id);
    if r < i {
        assert(id_lt(tokens[r].token_id, id));
    } else if i < r {
        assert(id_lt(tokens[i].token_id, id));
    }
}

/// A record whose identifier the ledger lacks enters at its rank, and the
/// ledger still ascends.
pub proof fn lemma_insert_ascending(tokens: Seq<TokenRecord>, record: TokenRecord)
    requires
        ids_ascending(tokens),
        position(tokens, record.token_id) is None,
    ensures
        ids_ascending(tokens.insert(rank(tokens, record.token_id), record)),
{
    let id = record.token_id;
    let r = rank(tokens, id);
    lemma_rank(tokens, id);
    lemma_position(tokens, id);
    let after = tokens.insert(r, record);
    assert forall|i: int, j: int| 0 <= i < j < after.len() implies id_lt(
        #[trigger] after[i].token_id,
        #[trigger] after[j].token_id,
    ) by {
        if j < r {
            assert(after[i] == tokens[i] && after[j] == tokens[j]);
        } else if j == r {
            assert(after[i] == tokens[i]);
        } else if i < r {
            // tokens[i] < id <= tokens[j - 1]
            assert(after[i] == tokens[i] && after[j] == tokens[j - 1]);
            if i < j - 1 {
                assert(id_lt(tokens[i].token_id, tokens[j - 1].token_id));
            }
        } else if i == r {
            // id < tokens[r] <= tokens[j - 1]
            assert(after[j] == tokens[j - 1]);
            assert(tokens[r].token_id != id);
            if id_lt(tokens[r].token_id, id) {
            } else if !id_lt(id, tokens[r].token_id) {
                lemma_id_lt_total(id, tokens[r].token_id);
            }
            if r < j - 1 {
                assert(id_lt(tokens[r].token_id, tokens[j - 1].token_id));
                lemma_id_lt_transitive(id, tokens[r].token_id, tokens[j - 1].token_id);
            }
        } else {
            assert(after[i] == tokens[i - 1] && after[j] == tokens[j - 1]);
        }
    }
}

/// A record that is unstaking, or staked with no time of a request, enters
/// a ledger whose timers rest, and they still rest.
pub proof fn lemma_insert_keeps_timers(tokens: Seq<TokenRecord>, i: int, record: TokenRecord)
    requires
        timers_rest(tokens),
        0 <= i <= tokens.len(),
        record.status == Status::Staked ==> record.unstake_time == 0,
    ensures
        timers_rest(tokens.insert(i, record)),
{
    let after = tokens.insert(i, record);
    assert forall|j: int| 0 <= j < after.len() && (#[trigger] after[j]).status
        == Status::Staked implies after[j].unstake_time == 0 by {
        if j < i {
            assert(after[j] == tokens[j]);
        } else if j > i {
            assert(after[j] == tokens[j - 1]);
        }
    }
}

/// Without one of its records the ledger still ascends.
pub proof fn lemma_remove_ascending(tokens: Seq<TokenRecord>, i: int)
    requires
        ids_ascending(tokens),
        0 <= i < tokens.len(),
    ensures
        ids_ascending(tokens.remove(i)),
{
    let after = tokens.remove(i);
    assert forall|a: int, b: int| 0 <= a < b < after.len() implies id_lt(
        #[trigger] after[a].token_id,
        #[trigger] after[b].token_id,
    ) by {
        let a0 = if a < i { a } else { a + 1 };
        let b0 = if b < i { b } else { b + 1 };
        assert(after[a] == tokens[a0] && after[b] == tokens[b0]);
    }
}

/// A record replaced by one of the same identifier leaves the ledger
/// ascending.
pub proof fn lemma_update_ascending(tokens: Seq<TokenRecord>, i: int, record: TokenRecord)
    requires
        ids_ascending(tokens),
        0 <= i < tokens.len(),
        record.token_id == tokens[i].token_id,
    ensures
        ids_ascending(tokens.update(i, record)),
{
    let after = tokens.update(i, record);
    assert forall|a: int, b: int| 0 <= a < b < after.len() implies id_lt(
        #[trigger] after[a].token_id,
        #[trigger] after[b].token_id,
    ) by {
        assert(after[a].token_id == tokens[a].token_id);
        assert(after[b].token_id == tokens[b].token_id);
    }
}

/// A ledger in which each record is below its successor ascends.
pub proof fn lemma_neighbours_ascending(tokens: Seq<TokenRecord>)
    requires
        forall|i: int|
            0 <= i < tokens.len() - 1 ==> id_lt(
                #[trigger] tokens[i].token_id,
                tokens[i + 1].token_id,
            ),
    ensures
        ids_ascending(tokens),
    decreases tokens.len(),
{
    if tokens.len() > 1 {
        let front = tokens.drop_last();
        assert forall|i: int| 0 <= i < front.len() - 1 implies id_lt(
            #[trigger] front[i].token_id,
            front[i + 1].token_id,
        ) by {
            assert(front[i] == tokens[i] && front[i + 1] == tokens[i + 1]);
            assert(id_lt(tokens[i].token_id, tokens[i + 1].token_id));
        }
        lemma_neighbours_ascending(front);
        let n = tokens.len() - 1;
        assert forall|i: int, j: int| 0 <= i < j < tokens.len() implies id_lt(
            #[trigger] tokens[i].token_id,
            #[trigger] tokens[j].token_id,
        ) by {
            if j < n {
                assert(front[i] == tokens[i] && front[j] == tokens[j]);
            } else if i == n - 1 {
                assert(id_lt(tokens[n - 1].token_id, tokens[n - 1 + 1].token_id));
            } else {
                assert(front[i] == tokens[i] && front[n - 1] == tokens[n - 1]);
                assert(id_lt(front[i].token_id, front[n - 1].token_id));
                assert(id_lt(tokens[n - 1].token_id, tokens[n - 1 + 1].token_id));
                lemma_id_lt_transitive(
                    tokens[i].token_id,
                    tokens[n - 1].token_id,
                    tokens[n].token_id,
                );
            }
        }
    }
}

/// The ledger of staking records, at most one for a token.
#[derive(Debug, PartialEq)]
pub struct Ledger {
    records: Vec<TokenInfo>,
}

impl View for Ledger {
    type V = Seq<TokenRecord>;

    closed spec fn view(&self) -> Seq<TokenRecord> {
        self.records@.map_values(|r: TokenInfo| r@)
    }
}

impl Ledger {
    /// The records ascend strictly by identifier.
    pub open spec fn wf(&self) -> bool {
        ids_ascending(self@)
    }

    /// The ledger holds no more records than a `usize` counts.
    pub proof fn lemma_len_fits(&self)
        ensures
            self@.len() <= usize::MAX,
    {
        assert(self.records.len() == self.records@.len());
    }

    /// The empty ledger.
    pub fn new() -> (r: Ledger)
        ensures
            r@ == Seq::<TokenRecord>::empty(),
            r.wf(),
    {
        let r = Ledger { records: Vec::new() };
        assert(r@ =~= Seq::<TokenRecord>::empty());
        r
    }

    /// The ledger that holds `records`, if their identifiers ascend
    /// strictly.
    pub fn from_records(records: Vec<TokenInfo>) -> (r: Option<Ledger>)
        ensures
            match r {
                Some(ledger) => ledger@ == records@.map_values(|t: TokenInfo| t@) && ledger.wf(),
                None => !ids_ascending(records@.map_values(|t: TokenInfo| t@)),
            },
    {
        let ghost all = records@.map_values(|t: TokenInfo| t@);
        let mut i: usize = 1;
        while i < records.len()
            invariant
                1 <= i,
                all == records@.map_values(|t: TokenInfo| t@),
                forall|j: int|
                    0 <= j < i - 1 && j < all.len() - 1 ==> id_lt(
                        #[trigger] all[j].token_id,
                        all[j + 1].token_id,
                    ),
            decreases records@.len() - i,
        {
            if !id_less(records[i - 1].token_id.as_str(), records[i].token_id.as_str()) {
                assert(!id_lt(all[i - 1].token_id, all[i as int].token_id));
                return None;
            }
            i += 1;
        }
        proof {
            lemma_neighbours_ascending(all);
        }
        Some(Ledger { records })
    }

    /// The number of records.
    pub fn len(&self) -> (n: usize)
        ensures
            n == self@.len(),
    {
        self.records.len()
    }

    /// The record at index `i`.
    pub fn get(&self, i: usize) -> (r: &TokenInfo)
        requires
            i < self@.len(),
        ensures
            r@ == self@[i as int],
    {
        &self.records[i]
    }

    /// The index of the record of the token `id`, if the token is staked.
    pub fn find(&self, id: &String) -> (r: Option<usize>)
        ensures
            match r {
                Some(i) => position(self@, id@) == Some(i as int) && i < self@.len(),
                None => position(self@, id@) is None,
            },
    {
        let mut i: usize = 0;
        while i < self.records.len()
            invariant
                i <= self@.len(),
                self@.len() == self.records@.len(),
                forall|j: int| 0 <= j < i ==> (#[trigger] self@[j]).token_id != id@,
            decreases self@.len() - i,
        {
            if self.records[i].token_id == *id {
                proof {
                    lemma_position(self@, id@);
                    assert(self@[i as int].token_id == id@);
                }
                return Some(i);
            }
            i += 1;
        }
        proof {
            lemma_position(self@, id@);
        }
        None
    }

    /// Enters the record of a token that has none yet, at the place that
    /// keeps the ledger ascending.
    pub fn insert(&mut self, record: TokenInfo)
        requires
            old(self).wf(),
            position(old(self)@, record.token_id@) is None,
        ensures
            final(self)@ == old(self)@.insert(rank(old(self)@, record.token_id@), record@),
            final(self)@.len() == old(self)@.len() + 1,
            final(self).wf(),
    {
        let mut i: usize = 0;
        while i < self.records.len() && id_less(
            self.records[i].token_id.as_str(),
            record.token_id.as_str(),
        )
            invariant
                i <= self@.len(),
                self@.len() == self.records@.len(),
                forall|j: int|
                    0 <= j < i ==> id_lt((#[trigger] self@[j]).token_id, record.token_id@),
            decreases self@.len() - i,
        {
            i += 1;
        }
        proof {
            lemma_rank_is(self@, record.token_id@, i as int);
            lemma_insert_ascending(self@, record@);
        }
        let ghost before = self@;
        self.records.insert(i, record);
        assert(self@ =~= before.insert(i as int, record@));
    }

    /// Takes the record at index `i` out of the ledger.
    pub fn remove(&mut self, i: usize) -> (r: TokenInfo)
        requires
            old(self).wf(),
            i < old(self)@.len(),
        ensures
            r@ == old(self)@[i as int],
            final(self)@ == old(self)@.remove(i as int),
            final(self).wf(),
    {
        proof {
            lemma_remove_ascending(self@, i as int);
        }
        let ghost before = self@;
        let r = self.records.remove(i);
        assert(self@ =~= before.remove(i as int));
        r
    }

    /// Marks the record at index `i` as unstaking since `now`.
    pub fn mark_unstaking(&mut self, i: usize, now: u64)
        requires
            old(self).wf(),
            i < old(self)@.len(),
        ensures
            final(self)@ == old(self)@.update(
                i as int,
                TokenRecord {
                    status: Status::Unstaking,
                    unstake_time: now as nat,
                    ..old(self)@[i as int]
                },
            ),
            final(self).wf(),
    {
        let ghost before = self@;
        self.records[i].status = Status::Unstaking;
        self.records[i].unstake_time = now;
        let ghost after = TokenRecord {
            status: Status::Unstaking,
            unstake_time: now as nat,
            ..before[i as int]
        };
        assert(self@ =~= before.update(i as int, after));
        proof {
            lemma_update_ascending(before, i as int, after);
        }
    }

    /// Sets both rewards of the record at index `i` to zero.
    pub fn clear_rewards(&mut self, i: usize)
        requires
            old(self).wf(),
            i < old(self)@.len(),
        ensures
            final(self)@ == old(self)@.update(i as int, cleared(old(self)@[i as int])),
            final(self).wf(),
    {
        let ghost before = self@;
        self.records[i].reward_juno = 0;
        self.records[i].reward_hope = 0;
        assert(self@ =~= before.update(i as int, cleared(before[i as int])));
        proof {
            lemma_update_ascending(before, i as int, cleared(before[i as int]));
        }
    }

    /// The number of records that are overdue at `now`.
    pub fn count_overdue(&self, now: u64, staking_period: u64) -> (n: usize)
        ensures
            n == overdue_count(self@, now as nat, staking_period as nat),
    {
        let mut n: usize = 0;
        let mut i: usize = 0;
        assert(self@.take(0) =~= Seq::<TokenRecord>::empty());
        while i < self.records.len()
            invariant
                i <= self@.len(),
                self@.len() == self.records@.len(),
                n <= i,
                n == overdue_count(self@.take(i as int), now as nat, staking_period as nat),
            decreases self@.len() - i,
        {
            assert(self@.take(i + 1).drop_last() =~= self@.take(i as int));
            assert(self@.take(i + 1).last() == self.records@[i as int]@);
            if self.records[i].is_overdue(now, staking_period) {
                n += 1;
            }
            i += 1;
        }
        assert(self@.take(i as int) =~= self@);
        n
    }

    /// Whether both rewards of every record that is not overdue at `now`
    /// can take the shares of one distribution.
    pub fn shares_fit(
        &self,
        now: u64,
        staking_period: u64,
        share_juno: u128,
        share_hope: u128,
    ) -> (b: bool)
        ensures
            b == shares_fit(
                self@,
                now as nat,
                staking_period as nat,
                share_juno as nat,
                share_hope as nat,
            ),
    {
        let mut i: usize = 0;
        while i < self.records.len()
            invariant
                i <= self@.len(),
                self@.len() == self.records@.len(),
                forall|j: int|
                    0 <= j < i && !overdue(#[trigger] self@[j], now as nat, staking_period as nat)
                        ==> self@[j].reward_juno + share_juno <= u128::MAX && self@[j].reward_hope
                        + share_hope <= u128::MAX,
            decreases self@.len() - i,
        {
            assert(self@[i as int] == self.records@[i as int]@);
            let record = &self.records[i];
            if !record.is_overdue(now, staking_period) && (record.reward_juno > u128::MAX
                - share_juno || record.reward_hope > u128::MAX - share_hope) {
                return false;
            }
            i += 1;
        }
        true
    }

    /// Adds the shares of one distribution to the rewards of every record
    /// that is not overdue at `now`.
    pub fn credit_all(&mut self, now: u64, staking_period: u64, share_juno: u128, share_hope: u128)
        requires
            old(self).wf(),
            shares_fit(
                old(self)@,
                now as nat,
                staking_period as nat,
                share_juno as nat,
                share_hope as nat,
            ),
        ensures
            final(self)@ == credited_all(
                old(self)@,
                now as nat,
                staking_period as nat,
                share_juno as nat,
                share_hope as nat,
            ),
            final(self).wf(),
    {
        let ghost before = self@;
        let mut i: usize = 0;
        while i < self.records.len()
            invariant
                i <= self@.len(),
                self@.len() == self.records@.len(),
                self@.len() == before.len(),
                shares_fit(
                    before,
                    now as nat,
                    staking_period as nat,
                    share_juno as nat,
                    share_hope as nat,
                ),
                forall|j: int|
                    0 <= j < i ==> #[trigger] self@[j] == credited(
                        before[j],
                        now as nat,
                        staking_period as nat,
                        share_juno as nat,
                        share_hope as nat,
                    ),
                forall|j: int| i <= j < self@.len() ==> #[trigger] self@[j] == before[j],
            decreases self@.len() - i,
        {
            let ghost here = self@;
            assert(here[i as int] == before[i as int]);
            assert(here[i as int] == self.records@[i as int]@);
            if !self.records[i].is_overdue(now, staking_period) {
                self.records[i].reward_juno = self.records[i].reward_juno + share_juno;
                self.records[i].reward_hope = self.records[i].reward_hope + share_hope;
            }
            assert(self@ =~= here.update(
                i as int,
                credited(
                    before[i as int],
                    now as nat,
                    staking_period as nat,
                    share_juno as nat,
                    share_hope as nat,
                ),
            ));
            i += 1;
        }
        let ghost after = credited_all(
            before,
            now as nat,
            staking_period as nat,
            share_juno as nat,
            share_hope as nat,
        );
        assert(self@ =~= after);
        assert forall|a: int, b: int| 0 <= a < b < after.len() implies id_lt(
            #[trigger] after[a].token_id,
            #[trigger] after[b].token_id,
        ) by {
            assert(after[a].token_id == before[a].token_id);
            assert(after[b].token_id == before[b].token_id);
        }
    }
}

impl Clone for Ledger {
    fn clone(&self) -> (r: Ledger)
        ensures
            r@ == self@,
    {
        let mut records: Vec<TokenInfo> = Vec::new();
        let mut i: usize = 0;
        while i < self.records.len()
            invariant
                i <= self.records@.len(),
                records@.len() == i,
                forall|j: int| 0 <= j < i ==> (#[trigger] records@[j])@ == self.records@[j]@,
            decreases self.records@.len() - i,
        {
            records.push(self.records[i].clone());
            i += 1;
        }
        let r = Ledger { records };
        assert(r@ =~= self@);
        r
    }
}

} // verus!
