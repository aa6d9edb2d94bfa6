//! Incentive voting: accounts register the weight of their locks and spread
//! it, by points, over receivers for the weeks their locks last; the weekly
//! weight of each receiver and of all receivers is kept.
use crate::types::{Pubkey, Table, TableKey};
use vstd::prelude::*;

verus! {

/// The points an account spreads over its votes.
pub const MAX_POINTS: u16 = 10000;

/// The longest lock, in weeks; a frozen lock weighs this many weeks.
pub const MAX_LOCK_WEEKS: u8 = 52;

/// The receivers and weeks that weights are kept for.
pub const MAX_SLOTS: usize = 65535;

/// A vote: the receiver and the points given to it.
#[derive(Clone, Copy, Debug, PartialEq, Eq, Structural)]
pub struct Vote {
    pub id: u128,
    pub points: u128,
}

/// An active lock: its amount and the weeks until it unlocks.
#[derive(Clone, Copy, Debug, PartialEq, Eq, Structural)]
pub struct LockData {
    pub amount: u32,
    pub weeks_to_unlock: u8,
}

/// What the contract keeps of an account: the week it registered, its
/// frozen weight, the points it has given, its lock count, its votes and
/// its locks.
#[derive(Debug)]
pub struct AccountData {
    pub week: u16,
    pub frozen_weight: u64,
    pub points: u16,
    pub lock_length: u8,
    pub vote_length: u16,
    pub active_votes: Vec<(u16, u16)>,
    pub locked_amounts: Vec<u32>,
    pub weeks_to_unlock: Vec<u8>,
}

/// The voting contract's state. A receiver's weight in a week that was
/// never written is zero.
pub struct IncentiveVoting {
    token_locker: Pubkey,
    vault: Pubkey,
    account_lock_data: Table<Pubkey, AccountData>,
    receiver_weekly_weights: Table<(u16, u16), u64>,
    total_weekly_weights: Vec<u64>,
    delegated_ops: Pubkey,
    system_start: u64,
}

/// The weight stored for `key`, zero when none is.
pub open spec fn stored_weight(m: Map<(u16, u16), u64>, key: (u16, u16)) -> int {
    if m.contains_key(key) { m[key] as int } else { 0 }
}

/// Whether week `w` is among the `len` weeks from `cw`.
pub open spec fn in_weeks(w: int, cw: int, len: int) -> bool {
    cw <= w < cw + len
}

/// The weight `votes` give receiver `r` in week `w`: the points of each vote
/// for `r` times the frozen weight, in the `len` weeks from `cw`.
pub open spec fn receiver_added(votes: Seq<Vote>, r: int, w: int, cw: int, len: int, frozen: u64) -> int
    decreases votes.len(),
{
    if votes.len() == 0 {
        0
    } else {
        let v = votes.last();
        receiver_added(votes.drop_last(), r, w, cw, len, frozen) + if (v.id as usize) as int == r && in_weeks(w, cw, len) {
            (v.points as u64) * frozen
        } else {
            0
        }
    }
}

/// The weight `votes` give all receivers together in week `w`.
pub open spec fn total_added(votes: Seq<Vote>, w: int, cw: int, len: int, frozen: u64) -> int
    decreases votes.len(),
{
    if votes.len() == 0 {
        0
    } else {
        total_added(votes.drop_last(), w, cw, len, frozen) + if in_weeks(w, cw, len) {
            (votes.last().points as u64) * frozen
        } else {
            0
        }
    }
}

/// Every vote names a receiver that weights are kept for.
pub open spec fn receivers_in_range(votes: Seq<Vote>) -> bool {
    forall|i: int| 0 <= i < votes.len() ==> ((#[trigger] votes[i]).id as usize) < MAX_SLOTS
}

/// The weights after `votes` were added: each receiver's and the total's
/// weight grew by what the votes give them.
pub open spec fn weights_added(
    before: Map<(u16, u16), u64>,
    after: Map<(u16, u16), u64>,
    totals_before: Seq<u64>,
    totals_after: Seq<u64>,
    votes: Seq<Vote>,
    cw: int,
    len: int,
    frozen: u64,
) -> bool {
    &&& forall|r: u16, w: u16| #[trigger] stored_weight(after, (r, w)) == stored_weight(before, (r, w))
        + receiver_added(votes, r as int, w as int, cw, len, frozen)
    &&& totals_after.len() == totals_before.len()
    &&& forall|w: int| 0 <= w < totals_after.len() ==> #[trigger] totals_after[w] == totals_before[w]
        + total_added(votes, w, cw, len, frozen)
}

/// The weights after `votes` were taken back: each receiver's and the
/// total's weight shrank by what the votes give them.
pub open spec fn weights_removed(
    before: Map<(u16, u16), u64>,
    after: Map<(u16, u16), u64>,
    totals_before: Seq<u64>,
    totals_after: Seq<u64>,
    votes: Seq<Vote>,
    cw: int,
    len: int,
    frozen: u64,
) -> bool {
    &&& forall|r: u16, w: u16| #[trigger] stored_weight(after, (r, w)) == stored_weight(before, (r, w))
        - receiver_added(votes, r as int, w as int, cw, len, frozen)
    &&& totals_after.len() == totals_before.len()
    &&& forall|w: int| 0 <= w < totals_after.len() ==> #[trigger] totals_after[w] == totals_before[w]
        - total_added(votes, w, cw, len, frozen)
}

/// The pair a vote is stored as: its receiver and its points, cut to 16 bits.
pub open spec fn vote_pair(v: Vote) -> (u16, u16) {
    (v.id as u16, v.points as u16)
}

/// An account's stored votes as votes.
pub open spec fn votes_of(pairs: Seq<(u16, u16)>) -> Seq<Vote> {
    pairs.map_values(|p: (u16, u16)| Vote { id: p.0 as u128, points: p.1 as u128 })
}

/// The stored votes after writing `votes` from position `offset` of `base`:
/// each vote overwrites the pair at its position, or is appended past the end.
pub open spec fn stored_votes(base: Seq<(u16, u16)>, votes: Seq<Vote>, offset: int) -> Seq<(u16, u16)>
    decreases votes.len(),
{
    if votes.len() == 0 {
        base
    } else {
        let s = stored_votes(base, votes.drop_last(), offset);
        let i = votes.len() - 1;
        if offset + i < s.len() {
            s.update(offset + i, vote_pair(votes.last()))
        } else {
            s.push(vote_pair(votes.last()))
        }
    }
}

/// The points of the votes, each cut to 16 bits, added up.
pub open spec fn points_sum(votes: Seq<Vote>) -> int
    decreases votes.len(),
{
    if votes.len() == 0 { 0 } else { points_sum(votes.drop_last()) + (votes.last().points as u16) }
}

/// The votes an account's weight is registered with before it registers
/// again: its stored votes, if it has any.
pub open spec fn registered_votes(d: AccountData) -> Seq<Vote> {
    if d.vote_length > 0 { votes_of(d.active_votes@) } else { Seq::empty() }
}

/// The locks after writing `locks` over the first of `amounts` and `weeks`.
pub open spec fn written_amounts(amounts: Seq<u32>, locks: Seq<LockData>) -> Seq<u32> {
    Seq::new(amounts.len(), |i: int| if i < locks.len() { locks[i].amount } else { amounts[i] })
}

pub open spec fn written_weeks(weeks: Seq<u8>, locks: Seq<LockData>) -> Seq<u8> {
    Seq::new(weeks.len(), |i: int| if i < locks.len() { locks[i].weeks_to_unlock } else { weeks[i] })
}

/// The weight a receiver or the total has after votes worth `removed` were
/// taken and votes worth `added` were given.
pub open spec fn moved(before: int, removed: int, added: int) -> int {
    before - removed + added
}

/// Taking back votes undoes adding them: adding `votes` and then removing
/// the same votes, at the same frozen weight, week and lock count, leaves
/// every receiver's weight and every total weight as it was.
pub proof fn lemma_remove_undoes_add(
    w0: Map<(u16, u16), u64>,
    w1: Map<(u16, u16), u64>,
    w2: Map<(u16, u16), u64>,
    t0: Seq<u64>,
    t1: Seq<u64>,
    t2: Seq<u64>,
    votes: Seq<Vote>,
    cw: int,
    len: int,
    frozen: u64,
)
    requires
        weights_added(w0, w1, t0, t1, votes, cw, len, frozen),
        weights_removed(w1, w2, t1, t2, votes, cw, len, frozen),
    ensures
        forall|r: u16, w: u16| #[trigger] stored_weight(w2, (r, w)) == stored_weight(w0, (r, w)),
        t2 == t0,
{
    assert forall|r: u16, w: u16| #[trigger] stored_weight(w2, (r, w)) == stored_weight(w0, (r, w)) by {
        assert(stored_weight(w1, (r, w)) == stored_weight(w0, (r, w)) + receiver_added(votes, r as int, w as int, cw, len, frozen));
    }
    assert forall|w: int| 0 <= w < t2.len() implies t2[w] == t0[w] by {
        assert(t1[w] == t0[w] + total_added(votes, w, cw, len, frozen));
    }
    assert(t2 =~= t0);
}

/// What each vote contributes is never negative, so the weight of a prefix
/// of the votes is at most the weight of all of them.
proof fn lemma_added_prefix(votes: Seq<Vote>, i: int, r: int, w: int, cw: int, len: int, frozen: u64)
    requires
        0 <= i <= votes.len(),
    ensures
        0 <= receiver_added(votes.subrange(0, i), r, w, cw, len, frozen) <= receiver_added(votes, r, w, cw, len, frozen),
        0 <= total_added(votes.subrange(0, i), w, cw, len, frozen) <= total_added(votes, w, cw, len, frozen),
    decreases votes.len(),
{
    let f = frozen as int;
    if votes.len() > 0 {
        let p = (votes.last().points as u64) as int;
        assert(p * f >= 0) by (nonlinear_arith)
            requires
                p >= 0,
                f >= 0,
        ;
        if i == votes.len() {
            assert(votes.subrange(0, i) =~= votes);
            lemma_added_prefix(votes.drop_last(), i - 1, r, w, cw, len, frozen);
            assert(votes.drop_last().subrange(0, i - 1) =~= votes.drop_last());
        } else {
            lemma_added_prefix(votes.drop_last(), i, r, w, cw, len, frozen);
            assert(votes.drop_last().subrange(0, i) =~= votes.subrange(0, i));
        }
    }
}

/// The points of a prefix of the votes are at most those of all of them.
proof fn lemma_points_prefix(votes: Seq<Vote>, i: int)
    requires
        0 <= i <= votes.len(),
    ensures
        0 <= points_sum(votes.subrange(0, i)) <= points_sum(votes),
    decreases votes.len(),
{
    if votes.len() > 0 {
        if i == votes.len() {
            assert(votes.subrange(0, i) =~= votes);
            lemma_points_prefix(votes.drop_last(), i - 1);
            assert(votes.drop_last().subrange(0, i - 1) =~= votes.drop_last());
        } else {
            lemma_points_prefix(votes.drop_last(), i);
            assert(votes.drop_last().subrange(0, i) =~= votes.subrange(0, i));
        }
    }
}

/// Adding one more vote to a prefix adds what that vote gives.
proof fn lemma_added_step(votes: Seq<Vote>, i: int, r: int, w: int, cw: int, len: int, frozen: u64)
    requires
        0 <= i < votes.len(),
    ensures
        receiver_added(votes.subrange(0, i + 1), r, w, cw, len, frozen) == receiver_added(votes.subrange(0, i), r, w, cw, len, frozen)
            + if (votes[i].id as usize) as int == r && in_weeks(w, cw, len) { (votes[i].points as u64) * frozen } else { 0 },
        total_added(votes.subrange(0, i + 1), w, cw, len, frozen) == total_added(votes.subrange(0, i), w, cw, len, frozen)
            + if in_weeks(w, cw, len) { (votes[i].points as u64) * frozen } else { 0 },
{
    assert(votes.subrange(0, i + 1).drop_last() =~= votes.subrange(0, i));
}

impl IncentiveVoting {
    pub closed spec fn well_formed(&self) -> bool {
        &&& self.account_lock_data.well_formed()
        &&& self.receiver_weekly_weights.well_formed()
        &&& self.total_weekly_weights@.len() == MAX_SLOTS
    }

    pub closed spec fn spec_accounts(&self) -> Map<Seq<u8>, AccountData> {
        self.account_lock_data.view()
    }

    /// The weight of each receiver in each week.
    pub closed spec fn receiver_weights(&self) -> Map<(u16, u16), u64> {
        self.receiver_weekly_weights.view()
    }

    /// The weight of all receivers together in each week.
    pub closed spec fn total_weights(&self) -> Seq<u64> {
        self.total_weekly_weights@
    }

    pub closed spec fn spec_system_start(&self) -> u64 {
        self.system_start
    }

    pub closed spec fn spec_contracts(&self) -> (Seq<u8>, Seq<u8>, Seq<u8>) {
        (self.token_locker@, self.vault@, self.delegated_ops@)
    }

    /// The lock count of a known account.
    pub open spec fn lock_length_of(&self, account: Seq<u8>) -> int {
        self.spec_accounts()[account].lock_length as int
    }

    /// A contract with no accounts and every weight zero.
    pub fn new(token_locker: Pubkey, vault: Pubkey, delegated_ops: Pubkey, system_start: u64) -> (r: Self)
        ensures
            r.well_formed(),
            r.spec_accounts() == Map::<Seq<u8>, AccountData>::empty(),
            forall|r2: u16, w: u16| #[trigger] stored_weight(r.receiver_weights(), (r2, w)) == 0,
            forall|w: int| 0 <= w < MAX_SLOTS ==> #[trigger] r.total_weights()[w] == 0,
            r.spec_system_start() == system_start,
            r.spec_contracts() == (token_locker@, vault@, delegated_ops@),
    {
        let totals: Vec<u64> = vec![0u64; MAX_SLOTS];
        IncentiveVoting {
            token_locker,
            vault,
            account_lock_data: Table::new(),
            receiver_weekly_weights: Table::new(),
            total_weekly_weights: totals,
            delegated_ops,
            system_start,
        }
    }

    /// The weight of receiver `r` in week `w`.
    fn receiver_weight(&self, r: u16, w: u16) -> (v: u64)
        requires
            self.well_formed(),
        ensures
            v == stored_weight(self.receiver_weights(), (r, w)),
    {
        match self.receiver_weekly_weights.get(&(r, w)) {
            Some(v) => *v,
            None => 0,
        }
    }

    /// Adds `amount` to receiver `r`'s and to the total weight in each of the
    /// weeks from `from` until `to`.
    fn add_range(&mut self, r: u16, from: u64, to: u64, amount: u64)
        requires
            old(self).well_formed(),
            from <= to <= MAX_SLOTS,
            forall|w: u16| from <= w < to ==> #[trigger] stored_weight(old(self).receiver_weights(), (r, w)) + amount
                <= u64::MAX,
            forall|w: int| from <= w < to ==> #[trigger] old(self).total_weights()[w] + amount <= u64::MAX,
        ensures
            final(self).well_formed(),
            forall|r2: u16, w: u16| #[trigger] stored_weight(final(self).receiver_weights(), (r2, w))
                == stored_weight(old(self).receiver_weights(), (r2, w)) + if r2 == r && from <= w < to { amount as int } else { 0 },
            forall|w: int| 0 <= w < MAX_SLOTS ==> #[trigger] final(self).total_weights()[w]
                == old(self).total_weights()[w] + if from <= w < to { amount as int } else { 0 },
            final(self).spec_accounts() == old(self).spec_accounts(),
            final(self).spec_system_start() == old(self).spec_system_start(),
            final(self).spec_contracts() == old(self).spec_contracts(),
    {
        let mut week = from;
        while week < to
            invariant
                from <= week <= to <= MAX_SLOTS,
                old(self).well_formed(),
                self.well_formed(),
                forall|w: u16| from <= w < to ==> #[trigger] stored_weight(old(self).receiver_weights(), (r, w)) + amount
                    <= u64::MAX,
                forall|w: int| from <= w < to ==> #[trigger] old(self).total_weights()[w] + amount <= u64::MAX,
                forall|r2: u16, w: u16| #[trigger] stored_weight(self.receiver_weights(), (r2, w))
                    == stored_weight(old(self).receiver_weights(), (r2, w)) + if r2 == r && from <= w < week { amount as int } else { 0 },
                forall|w: int| 0 <= w < MAX_SLOTS ==> #[trigger] self.total_weights()[w]
                    == old(self).total_weights()[w] + if from <= w < week { amount as int } else { 0 },
                self.spec_accounts() == old(self).spec_accounts(),
                self.spec_system_start() == old(self).spec_system_start(),
                self.spec_contracts() == old(self).spec_contracts(),
            decreases to - week,
        {
            let w = week as u16;
            let i = week as usize;
            assert(self.total_weights()[week as int] == old(self).total_weights()[week as int]);
            assert(stored_weight(self.receiver_weights(), (r, w)) == stored_weight(old(self).receiver_weights(), (r, w)));
            let t = self.total_weekly_weights[i];
            assert(t == self.total_weights()[i as int]);
            assert(old(self).total_weights()[i as int] + amount <= u64::MAX);
            self.total_weekly_weights.set(i, t + amount);
            let current = self.receiver_weight(r, w);
            assert(stored_weight(old(self).receiver_weights(), (r, w)) + amount <= u64::MAX);
            let ghost before = self.receiver_weights();
            self.receiver_weekly_weights.insert((r, w), current + amount);
            assert forall|r2: u16, w2: u16| #[trigger] stored_weight(self.receiver_weights(), (r2, w2))
                == stored_weight(old(self).receiver_weights(), (r2, w2)) + if r2 == r && from <= w2 < week + 1 { amount as int } else { 0 } by {
                if (r2, w2) != (r, w) {
                    assert(stored_weight(self.receiver_weights(), (r2, w2)) == stored_weight(before, (r2, w2)));
                }
            }
            week = week + 1;
        }
    }

    /// Takes `amount` from receiver `r`'s and from the total weight in each
    /// of the weeks from `from` until `to`.
    fn sub_range(&mut self, r: u16, from: u64, to: u64, amount: u64)
        requires
            old(self).well_formed(),
            from <= to <= MAX_SLOTS,
            forall|w: u16| from <= w < to ==> #[trigger] stored_weight(old(self).receiver_weights(), (r, w)) >= amount,
            forall|w: int| from <= w < to ==> #[trigger] old(self).total_weights()[w] >= amount,
        ensures
            final(self).well_formed(),
            forall|r2: u16, w: u16| #[trigger] stored_weight(final(self).receiver_weights(), (r2, w))
                == stored_weight(old(self).receiver_weights(), (r2, w)) - if r2 == r && from <= w < to { amount as int } else { 0 },
            forall|w: int| 0 <= w < MAX_SLOTS ==> #[trigger] final(self).total_weights()[w]
                == old(self).total_weights()[w] - if from <= w < to { amount as int } else { 0 },
            final(self).spec_accounts() == old(self).spec_accounts(),
            final(self).spec_system_start() == old(self).spec_system_start(),
            final(self).spec_contracts() == old(self).spec_contracts(),
    {
        let mut week = from;
        while week < to
            invariant
                from <= week <= to <= MAX_SLOTS,
                old(self).well_formed(),
                self.well_formed(),
                forall|w: u16| from <= w < to ==> #[trigger] stored_weight(old(self).receiver_weights(), (r, w)) >= amount,
                forall|w: int| from <= w < to ==> #[trigger] old(self).total_weights()[w] >= amount,
                forall|r2: u16, w: u16| #[trigger] stored_weight(self.receiver_weights(), (r2, w))
                    == stored_weight(old(self).receiver_weights(), (r2, w)) - if r2 == r && from <= w < week { amount as int } else { 0 },
                forall|w: int| 0 <= w < MAX_SLOTS ==> #[trigger] self.total_weights()[w]
                    == old(self).total_weights()[w] - if from <= w < week { amount as int } else { 0 },
                self.spec_accounts() == old(self).spec_accounts(),
                self.spec_system_start() == old(self).spec_system_start(),
                self.spec_contracts() == old(self).spec_contracts(),
            decreases to - week,
        {
            let w = week as u16;
            let i = week as usize;
            assert(self.total_weights()[week as int] == old(self).total_weights()[week as int]);
            assert(stored_weight(self.receiver_weights(), (r, w)) == stored_weight(old(self).receiver_weights(), (r, w)));
            let t = self.total_weekly_weights[i];
            assert(t == self.total_weights()[i as int]);
            assert(old(self).total_weights()[i as int] >= amount);
            self.total_weekly_weights.set(i, t - amount);
            let current = self.receiver_weight(r, w);
            assert(stored_weight(old(self).receiver_weights(), (r, w)) >= amount);
            let ghost before = self.receiver_weights();
            self.receiver_weekly_weights.insert((r, w), current - amount);
            assert forall|r2: u16, w2: u16| #[trigger] stored_weight(self.receiver_weights(), (r2, w2))
                == stored_weight(old(self).receiver_weights(), (r2, w2)) - if r2 == r && from <= w2 < week + 1 { amount as int } else { 0 } by {
                if (r2, w2) != (r, w) {
                    assert(stored_weight(self.receiver_weights(), (r2, w2)) == stored_weight(before, (r2, w2)));
                }
            }
            week = week + 1;
        }
    }
    /// Adds what `votes` give, at `frozen_weight` each point, to the weight of
    /// their receivers and to the total, for the weeks of `account`'s locks
    /// from `current_week`.
    pub fn add_vote_weights(&mut self, account: &Pubkey, votes: &[Vote], frozen_weight: u64, current_week: u64)
        requires
            old(self).well_formed(),
            old(self).spec_accounts().contains_key(account@),
            votes@.len() > 0 ==> current_week + old(self).lock_length_of(account@) <= u64::MAX,
            votes@.len() > 0 && old(self).lock_length_of(account@) > 0 ==> current_week + old(self).lock_length_of(account@)
                <= MAX_SLOTS && receivers_in_range(votes@),
            forall|r: u16, w: u16| #[trigger] stored_weight(old(self).receiver_weights(), (r, w)) + receiver_added(
                votes@, r as int, w as int, current_week as int, old(self).lock_length_of(account@), frozen_weight,
            ) <= u64::MAX,
            forall|w: int| 0 <= w < MAX_SLOTS ==> #[trigger] old(self).total_weights()[w] + total_added(
                votes@, w, current_week as int, old(self).lock_length_of(account@), frozen_weight,
            ) <= u64::MAX,
        ensures
            final(self).well_formed(),
            weights_added(
                old(self).receiver_weights(),
                final(self).receiver_weights(),
                old(self).total_weights(),
                final(self).total_weights(),
                votes@,
                current_week as int,
                old(self).lock_length_of(account@),
                frozen_weight,
            ),
            final(self).spec_accounts() == old(self).spec_accounts(),
            final(self).spec_system_start() == old(self).spec_system_start(),
            final(self).spec_contracts() == old(self).spec_contracts(),
    {
        let lock_length = self.account_lock_data.get(account).unwrap().lock_length;
        let ghost len = lock_length as int;
        let ghost cw = current_week as int;
        let mut i: usize = 0;
        while i < votes.len()
            invariant
                i <= votes@.len(),
                old(self).well_formed(),
                self.well_formed(),
                len == old(self).lock_length_of(account@),
                len == lock_length,
                cw == current_week,
                votes@.len() > 0 ==> current_week + len <= u64::MAX,
                votes@.len() > 0 && len > 0 ==> current_week + len <= MAX_SLOTS && receivers_in_range(votes@),
                forall|r: u16, w: u16| #[trigger] stored_weight(old(self).receiver_weights(), (r, w)) + receiver_added(
                    votes@, r as int, w as int, cw, len, frozen_weight,
                ) <= u64::MAX,
                forall|w: int| 0 <= w < MAX_SLOTS ==> #[trigger] old(self).total_weights()[w] + total_added(
                    votes@, w, cw, len, frozen_weight,
                ) <= u64::MAX,
                weights_added(
                    old(self).receiver_weights(),
                    self.receiver_weights(),
                    old(self).total_weights(),
                    self.total_weights(),
                    votes@.subrange(0, i as int),
                    cw,
                    len,
                    frozen_weight,
                ),
                self.spec_accounts() == old(self).spec_accounts(),
                self.spec_system_start() == old(self).spec_system_start(),
                self.spec_contracts() == old(self).spec_contracts(),
            decreases votes@.len() - i,
        {
            let vote = votes[i];
            if lock_length > 0 {
                let vote_id = vote.id as usize;
                assert(vote_id < MAX_SLOTS);
                let r = vote_id as u16;
                let points = vote.points as u64;
                let end = current_week + lock_length as u64;
                proof {
                    lemma_added_prefix(votes@, i + 1, r as int, cw, cw, len, frozen_weight);
                    lemma_added_step(votes@, i as int, r as int, cw, cw, len, frozen_weight);
                    lemma_added_prefix(votes@, i as int, r as int, cw, cw, len, frozen_weight);
                    assert(old(self).total_weights()[cw] + total_added(votes@, cw, cw, len, frozen_weight) <= u64::MAX);
                }
                let amount = points * frozen_weight;
                proof {
                    assert forall|w: u16| current_week <= w < end implies #[trigger] stored_weight(self.receiver_weights(), (r, w))
                        + amount <= u64::MAX by {
                        lemma_added_prefix(votes@, i + 1, r as int, w as int, cw, len, frozen_weight);
                        lemma_added_step(votes@, i as int, r as int, w as int, cw, len, frozen_weight);
                        assert(stored_weight(self.receiver_weights(), (r, w)) == stored_weight(old(self).receiver_weights(), (r, w))
                            + receiver_added(votes@.subrange(0, i as int), r as int, w as int, cw, len, frozen_weight));
                        assert(stored_weight(old(self).receiver_weights(), (r, w)) + receiver_added(
                            votes@, r as int, w as int, cw, len, frozen_weight) <= u64::MAX);
                    }
                    assert forall|w: int| current_week <= w < end implies #[trigger] self.total_weights()[w] + amount <= u64::MAX by {
                        lemma_added_prefix(votes@, i + 1, 0, w, cw, len, frozen_weight);
                        lemma_added_step(votes@, i as int, 0, w, cw, len, frozen_weight);
                        assert(old(self).total_weights()[w] + total_added(votes@, w, cw, len, frozen_weight) <= u64::MAX);
                    }
                }
                let ghost mid_recv = self.receiver_weights();
                let ghost mid_total = self.total_weights();
                self.add_range(r, current_week, end, amount);
                proof {
                    assert forall|r2: u16, w: u16| #[trigger] stored_weight(self.receiver_weights(), (r2, w))
                        == stored_weight(old(self).receiver_weights(), (r2, w))
                        + receiver_added(votes@.subrange(0, i + 1), r2 as int, w as int, cw, len, frozen_weight) by {
                        lemma_added_step(votes@, i as int, r2 as int, w as int, cw, len, frozen_weight);
                        assert(stored_weight(mid_recv, (r2, w)) == stored_weight(old(self).receiver_weights(), (r2, w))
                            + receiver_added(votes@.subrange(0, i as int), r2 as int, w as int, cw, len, frozen_weight));
                    }
                    assert forall|w: int| 0 <= w < self.total_weights().len() implies #[trigger] self.total_weights()[w]
                        == old(self).total_weights()[w] + total_added(votes@.subrange(0, i + 1), w, cw, len, frozen_weight) by {
                        lemma_added_step(votes@, i as int, 0, w, cw, len, frozen_weight);
                        assert(mid_total[w] == old(self).total_weights()[w]
                            + total_added(votes@.subrange(0, i as int), w, cw, len, frozen_weight));
                    }
                }
            } else {
                proof {
                    assert forall|r2: u16, w: u16| #[trigger] stored_weight(self.receiver_weights(), (r2, w))
                        == stored_weight(old(self).receiver_weights(), (r2, w))
                        + receiver_added(votes@.subrange(0, i + 1), r2 as int, w as int, cw, len, frozen_weight) by {
                        lemma_added_step(votes@, i as int, r2 as int, w as int, cw, len, frozen_weight);
                    }
                    assert forall|w: int| 0 <= w < self.total_weights().len() implies #[trigger] self.total_weights()[w]
                        == old(self).total_weights()[w] + total_added(votes@.subrange(0, i + 1), w, cw, len, frozen_weight) by {
                        lemma_added_step(votes@, i as int, 0, w, cw, len, frozen_weight);
                    }
                }
            }
            i = i + 1;
        }
        assert(votes@.subrange(0, votes@.len() as int) =~= votes@);
    }

    /// Takes what `votes` gave, at `frozen_weight` each point, from the weight
    /// of their receivers and from the total, for the weeks of `account`'s
    /// locks from `current_week`.
    pub fn remove_vote_weights(&mut self, account: &Pubkey, votes: &[Vote], frozen_weight: u64, current_week: u64)
        requires
            old(self).well_formed(),
            old(self).spec_accounts().contains_key(account@),
            votes@.len() > 0 ==> current_week + old(self).lock_length_of(account@) <= u64::MAX,
            votes@.len() > 0 && old(self).lock_length_of(account@) > 0 ==> current_week + old(self).lock_length_of(account@)
                <= MAX_SLOTS && receivers_in_range(votes@),
            forall|r: u16, w: u16| #[trigger] stored_weight(old(self).receiver_weights(), (r, w)) >= receiver_added(
                votes@, r as int, w as int, current_week as int, old(self).lock_length_of(account@), frozen_weight,
            ),
            forall|w: int| 0 <= w < MAX_SLOTS ==> #[trigger] old(self).total_weights()[w] >= total_added(
                votes@, w, current_week as int, old(self).lock_length_of(account@), frozen_weight,
            ),
        ensures
            final(self).well_formed(),
            weights_removed(
                old(self).receiver_weights(),
                final(self).receiver_weights(),
                old(self).total_weights(),
                final(self).total_weights(),
                votes@,
                current_week as int,
                old(self).lock_length_of(account@),
                frozen_weight,
            ),
            final(self).spec_accounts() == old(self).spec_accounts(),
            final(self).spec_system_start() == old(self).spec_system_start(),
            final(self).spec_contracts() == old(self).spec_contracts(),
    {
        let lock_length = self.account_lock_data.get(account).unwrap().lock_length;
        let ghost len = lock_length as int;
        let ghost cw = current_week as int;
        let mut i: usize = 0;
        while i < votes.len()
            invariant
                i <= votes@.len(),
                old(self).well_formed(),
                self.well_formed(),
                len == old(self).lock_length_of(account@),
                len == lock_length,
                cw == current_week,
                votes@.len() > 0 ==> current_week + len <= u64::MAX,
                votes@.len() > 0 && len > 0 ==> current_week + len <= MAX_SLOTS && receivers_in_range(votes@),
                forall|r: u16, w: u16| #[trigger] stored_weight(old(self).receiver_weights(), (r, w)) >= receiver_added(
                    votes@, r as int, w as int, cw, len, frozen_weight,
                ),
                forall|w: int| 0 <= w < MAX_SLOTS ==> #[trigger] old(self).total_weights()[w] >= total_added(
                    votes@, w, cw, len, frozen_weight,
                ),
                weights_removed(
                    old(self).receiver_weights(),
                    self.receiver_weights(),
                    old(self).total_weights(),
                    self.total_weights(),
                    votes@.subrange(0, i as int),
                    cw,
                    len,
                    frozen_weight,
                ),
                self.spec_accounts() == old(self).spec_accounts(),
                self.spec_system_start() == old(self).spec_system_start(),
                self.spec_contracts() == old(self).spec_contracts(),
            decreases votes@.len() - i,
        {
            let vote = votes[i];
            if lock_length > 0 {
                let vote_id = vote.id as usize;
                assert(vote_id < MAX_SLOTS);
                let r = vote_id as u16;
                let points = vote.points as u64;
                let end = current_week + lock_length as u64;
                proof {
                    lemma_added_prefix(votes@, i + 1, r as int, cw, cw, len, frozen_weight);
                    lemma_added_step(votes@, i as int, r as int, cw, cw, len, frozen_weight);
                    lemma_added_prefix(votes@, i as int, r as int, cw, cw, len, frozen_weight);
                    assert(old(self).total_weights()[cw] >= total_added(votes@, cw, cw, len, frozen_weight));
                    assert(old(self).total_weights()[cw] <= u64::MAX);
                }
                let amount = points * frozen_weight;
                proof {
                    assert forall|w: u16| current_week <= w < end implies #[trigger] stored_weight(self.receiver_weights(), (r, w))
                        >= amount by {
                        lemma_added_prefix(votes@, i + 1, r as int, w as int, cw, len, frozen_weight);
                        lemma_added_step(votes@, i as int, r as int, w as int, cw, len, frozen_weight);
                        assert(stored_weight(self.receiver_weights(), (r, w)) == stored_weight(old(self).receiver_weights(), (r, w))
                            - receiver_added(votes@.subrange(0, i as int), r as int, w as int, cw, len, frozen_weight));
                        assert(stored_weight(old(self).receiver_weights(), (r, w)) >= receiver_added(
                            votes@, r as int, w as int, cw, len, frozen_weight));
                    }
                    assert forall|w: int| current_week <= w < end implies #[trigger] self.total_weights()[w] >= amount by {
                        lemma_added_prefix(votes@, i + 1, 0, w, cw, len, frozen_weight);
                        lemma_added_step(votes@, i as int, 0, w, cw, len, frozen_weight);
                        assert(old(self).total_weights()[w] >= total_added(votes@, w, cw, len, frozen_weight));
                    }
                }
                let ghost mid_recv = self.receiver_weights();
                let ghost mid_total = self.total_weights();
                self.sub_range(r, current_week, end, amount);
                proof {
                    assert forall|r2: u16, w: u16| #[trigger] stored_weight(self.receiver_weights(), (r2, w))
                        == stored_weight(old(self).receiver_weights(), (r2, w))
                        - receiver_added(votes@.subrange(0, i + 1), r2 as int, w as int, cw, len, frozen_weight) by {
                        lemma_added_step(votes@, i as int, r2 as int, w as int, cw, len, frozen_weight);
                        assert(stored_weight(mid_recv, (r2, w)) == stored_weight(old(self).receiver_weights(), (r2, w))
                            - receiver_added(votes@.subrange(0, i as int), r2 as int, w as int, cw, len, frozen_weight));
                    }
                    assert forall|w: int| 0 <= w < self.total_weights().len() implies #[trigger] self.total_weights()[w]
                        == old(self).total_weights()[w] - total_added(votes@.subrange(0, i + 1), w, cw, len, frozen_weight) by {
                        lemma_added_step(votes@, i as int, 0, w, cw, len, frozen_weight);
                        assert(mid_total[w] == old(self).total_weights()[w]
                            - total_added(votes@.subrange(0, i as int), w, cw, len, frozen_weight));
                    }
                }
            } else {
                proof {
                    assert forall|r2: u16, w: u16| #[trigger] stored_weight(self.receiver_weights(), (r2, w))
                        == stored_weight(old(self).receiver_weights(), (r2, w))
                        - receiver_added(votes@.subrange(0, i + 1), r2 as int, w as int, cw, len, frozen_weight) by {
                        lemma_added_step(votes@, i as int, r2 as int, w as int, cw, len, frozen_weight);
                    }
                    assert forall|w: int| 0 <= w < self.total_weights().len() implies #[trigger] self.total_weights()[w]
                        == old(self).total_weights()[w] - total_added(votes@.subrange(0, i + 1), w, cw, len, frozen_weight) by {
                        lemma_added_step(votes@, i as int, 0, w, cw, len, frozen_weight);
                    }
                }
            }
            i = i + 1;
        }
        assert(votes@.subrange(0, votes@.len() as int) =~= votes@);
    }

    /// `account`'s stored votes, as votes; none for an unknown account.
    pub fn get_account_current_votes(&self, account: &Pubkey) -> (r: Vec<Vote>)
        requires
            self.well_formed(),
        ensures
            r@ == (if self.spec_accounts().contains_key(account@) {
                votes_of(self.spec_accounts()[account@].active_votes@)
            } else {
                Seq::<Vote>::empty()
            }),
    {
        match self.account_lock_data.get(account) {
            Some(data) => {
                let mut r: Vec<Vote> = Vec::new();
                let mut i: usize = 0;
                while i < data.active_votes.len()
                    invariant
                        i <= data.active_votes@.len(),
                        r@ == votes_of(data.active_votes@).subrange(0, i as int),
                    decreases data.active_votes@.len() - i,
                {
                    let (id, points) = data.active_votes[i];
                    r.push(Vote { id: id as u128, points: points as u128 });
                    i = i + 1;
                }
                assert(r@ =~= votes_of(data.active_votes@));
                r
            },
            None => Vec::new(),
        }
    }

    /// Stores `votes` as `account`'s votes from position `offset` (after
    /// clearing its votes when `offset` is zero), its points as `points` plus
    /// the votes' points, and its vote count.
    pub fn store_account_votes(&mut self, account: &Pubkey, votes: &[Vote], points: u16, offset: u16)
        requires
            old(self).well_formed(),
            old(self).spec_accounts().contains_key(account@),
            points + points_sum(votes@) <= u16::MAX,
            offset + votes@.len() <= usize::MAX,
        ensures
            final(self).well_formed(),
            ({
                let before = old(self).spec_accounts()[account@];
                let after = final(self).spec_accounts()[account@];
                let base = if offset == 0 { Seq::<(u16, u16)>::empty() } else { before.active_votes@ };
                &&& final(self).spec_accounts() == old(self).spec_accounts().insert(account@, after)
                &&& after.active_votes@ == stored_votes(base, votes@, offset as int)
                &&& after.points == points + points_sum(votes@)
                &&& after.vote_length == after.active_votes@.len() as u16
                &&& after.week == before.week
                &&& after.frozen_weight == before.frozen_weight
                &&& after.lock_length == before.lock_length
                &&& after.locked_amounts@ == before.locked_amounts@
                &&& after.weeks_to_unlock@ == before.weeks_to_unlock@
            }),
            final(self).receiver_weights() == old(self).receiver_weights(),
            final(self).total_weights() == old(self).total_weights(),
            final(self).spec_system_start() == old(self).spec_system_start(),
            final(self).spec_contracts() == old(self).spec_contracts(),
    {
        let mut data = self.account_lock_data.remove(account).unwrap();
        let ghost before = data;
        if offset == 0 {
            data.active_votes.clear();
        }
        let ghost base = data.active_votes@;
        let mut i: usize = 0;
        while i < votes.len()
            invariant
                i <= votes@.len(),
                offset + votes@.len() <= usize::MAX,
                data.active_votes@ == stored_votes(base, votes@.subrange(0, i as int), offset as int),
                data.week == before.week,
                data.frozen_weight == before.frozen_weight,
                data.lock_length == before.lock_length,
                data.locked_amounts@ == before.locked_amounts@,
                data.weeks_to_unlock@ == before.weeks_to_unlock@,
            decreases votes@.len() - i,
        {
            let pair = (votes[i].id as u16, votes[i].points as u16);
            let idx = offset as usize + i;
            proof {
                assert(votes@.subrange(0, i + 1).drop_last() =~= votes@.subrange(0, i as int));
            }
            if idx < data.active_votes.len() {
                data.active_votes.set(idx, pair);
            } else {
                data.active_votes.push(pair);
            }
            i = i + 1;
        }
        assert(votes@.subrange(0, votes@.len() as int) =~= votes@);
        let mut total: u16 = 0;
        let mut j: usize = 0;
        while j < votes.len()
            invariant
                j <= votes@.len(),
                points + points_sum(votes@) <= u16::MAX,
                total == points_sum(votes@.subrange(0, j as int)),
            decreases votes@.len() - j,
        {
            proof {
                assert(votes@.subrange(0, j + 1).drop_last() =~= votes@.subrange(0, j as int));
                lemma_points_prefix(votes@, j + 1);
            }
            total = total + votes[j].points as u16;
            j = j + 1;
        }
        data.points = points + total;
        data.vote_length = data.active_votes.len() as u16;
        let ghost after = data;
        self.account_lock_data.insert(*account, data);
        assert(self.spec_accounts() =~= old(self).spec_accounts().insert(account@, after));

    }

    /// Spreads `account`'s frozen weight over `votes` for the weeks of its
    /// locks from `current_week`, first taking back its stored votes when
    /// `clear_previous` is set (and then storing `votes` in their place),
    /// else adding `votes` after the stored ones.
    pub fn vote(&mut self, account: &Pubkey, votes: &[Vote], clear_previous: bool, current_week: u64)
        requires
            old(self).well_formed(),
            old(self).spec_accounts().contains_key(account@),
            ({
                let d = old(self).spec_accounts()[account@];
                let len = d.lock_length as int;
                let cw = current_week as int;
                let cur = votes_of(d.active_votes@);
                &&& d.frozen_weight > 0 || d.lock_length > 0
                &&& clear_previous && cur.len() > 0 ==> cw + len <= u64::MAX
                &&& clear_previous && cur.len() > 0 && len > 0 ==> cw + len <= MAX_SLOTS && receivers_in_range(cur)
                &&& clear_previous ==> forall|r: u16, w: u16| #[trigger] stored_weight(old(self).receiver_weights(), (r, w))
                    >= receiver_added(cur, r as int, w as int, cw, len, d.frozen_weight)
                &&& clear_previous ==> forall|w: int| 0 <= w < MAX_SLOTS ==> #[trigger] old(self).total_weights()[w]
                    >= total_added(cur, w, cw, len, d.frozen_weight)
                &&& votes@.len() > 0 ==> cw + len <= u64::MAX
                &&& votes@.len() > 0 && len > 0 ==> cw + len <= MAX_SLOTS && receivers_in_range(votes@)
                &&& forall|r: u16, w: u16| moved(
                    #[trigger] stored_weight(old(self).receiver_weights(), (r, w)),
                    if clear_previous { receiver_added(cur, r as int, w as int, cw, len, d.frozen_weight) } else { 0 },
                    receiver_added(votes@, r as int, w as int, cw, len, d.frozen_weight),
                ) <= u64::MAX
                &&& forall|w: int| 0 <= w < MAX_SLOTS ==> moved(
                    #[trigger] old(self).total_weights()[w] as int,
                    if clear_previous { total_added(cur, w, cw, len, d.frozen_weight) } else { 0 },
                    total_added(votes@, w, cw, len, d.frozen_weight),
                ) <= u64::MAX
                &&& (if clear_previous { 0 } else { d.points as int }) + points_sum(votes@) <= u16::MAX
                &&& (if clear_previous { 0 } else { d.vote_length as int }) + votes@.len() <= usize::MAX
            }),
        ensures
            final(self).well_formed(),
            ({
                let d = old(self).spec_accounts()[account@];
                let len = d.lock_length as int;
                let cw = current_week as int;
                let cur = votes_of(d.active_votes@);
                let after = final(self).spec_accounts()[account@];
                let offset = if clear_previous { 0 } else { d.vote_length as int };
                let base = if offset == 0 { Seq::<(u16, u16)>::empty() } else { d.active_votes@ };
                &&& forall|r: u16, w: u16| #[trigger] stored_weight(final(self).receiver_weights(), (r, w)) == moved(
                    stored_weight(old(self).receiver_weights(), (r, w)),
                    if clear_previous { receiver_added(cur, r as int, w as int, cw, len, d.frozen_weight) } else { 0 },
                    receiver_added(votes@, r as int, w as int, cw, len, d.frozen_weight),
                )
                &&& final(self).total_weights().len() == MAX_SLOTS
                &&& forall|w: int| 0 <= w < MAX_SLOTS ==> #[trigger] final(self).total_weights()[w] == moved(
                    old(self).total_weights()[w] as int,
                    if clear_previous { total_added(cur, w, cw, len, d.frozen_weight) } else { 0 },
                    total_added(votes@, w, cw, len, d.frozen_weight),
                )
                &&& final(self).spec_accounts() == old(self).spec_accounts().insert(account@, after)
                &&& after.active_votes@ == stored_votes(base, votes@, offset)
                &&& after.points == (if clear_previous { 0 } else { d.points as int }) + points_sum(votes@)
                &&& after.vote_length == after.active_votes@.len() as u16
                &&& after.week == d.week
                &&& after.frozen_weight == d.frozen_weight
                &&& after.lock_length == d.lock_length
                &&& after.locked_amounts@ == d.locked_amounts@
                &&& after.weeks_to_unlock@ == d.weeks_to_unlock@
            }),
            final(self).spec_system_start() == old(self).spec_system_start(),
            final(self).spec_contracts() == old(self).spec_contracts(),
    {
        let (frozen_weight, stored_points, vote_length) = {
            let data = self.account_lock_data.get(account).unwrap();
            (data.frozen_weight, data.points, data.vote_length)
        };
        let ghost d = old(self).spec_accounts()[account@];
        let ghost cw = current_week as int;
        let ghost len = d.lock_length as int;
        let ghost cur = votes_of(d.active_votes@);
        let mut points: u16 = 0;
        let mut offset: u16 = 0;
        if clear_previous {
            let current = self.get_account_current_votes(account);
            self.remove_vote_weights(account, &current, frozen_weight, current_week);
        } else {
            points = stored_points;
            offset = vote_length;
        }
        let ghost mid_recv = self.receiver_weights();
        let ghost mid_total = self.total_weights();
        proof {
            assert forall|r: u16, w: u16| #[trigger] stored_weight(mid_recv, (r, w)) + receiver_added(
                votes@, r as int, w as int, cw, len, frozen_weight) <= u64::MAX by {
                assert(moved(
                    stored_weight(old(self).receiver_weights(), (r, w)),
                    if clear_previous { receiver_added(cur, r as int, w as int, cw, len, d.frozen_weight) } else { 0 },
                    receiver_added(votes@, r as int, w as int, cw, len, d.frozen_weight),
                ) <= u64::MAX);
            }
            assert forall|w: int| 0 <= w < MAX_SLOTS implies #[trigger] mid_total[w] + total_added(
                votes@, w, cw, len, frozen_weight) <= u64::MAX by {
                assert(moved(
                    old(self).total_weights()[w] as int,
                    if clear_previous { total_added(cur, w, cw, len, d.frozen_weight) } else { 0 },
                    total_added(votes@, w, cw, len, d.frozen_weight),
                ) <= u64::MAX);
            }
        }
        self.add_vote_weights(account, votes, frozen_weight, current_week);
        proof {
            assert forall|r: u16, w: u16| #[trigger] stored_weight(self.receiver_weights(), (r, w)) == moved(
                stored_weight(old(self).receiver_weights(), (r, w)),
                if clear_previous { receiver_added(cur, r as int, w as int, cw, len, d.frozen_weight) } else { 0 },
                receiver_added(votes@, r as int, w as int, cw, len, d.frozen_weight),
            ) by {
                assert(stored_weight(mid_recv, (r, w)) == stored_weight(old(self).receiver_weights(), (r, w))
                    - if clear_previous { receiver_added(cur, r as int, w as int, cw, len, d.frozen_weight) } else { 0 });
            }
            assert forall|w: int| 0 <= w < MAX_SLOTS implies #[trigger] self.total_weights()[w] == moved(
                old(self).total_weights()[w] as int,
                if clear_previous { total_added(cur, w, cw, len, d.frozen_weight) } else { 0 },
                total_added(votes@, w, cw, len, d.frozen_weight),
            ) by {
                assert(mid_total[w] == old(self).total_weights()[w]
                    - if clear_previous { total_added(cur, w, cw, len, d.frozen_weight) } else { 0 });
            }
        }
        let ghost recv_after = self.receiver_weights();
        let ghost total_after = self.total_weights();
        self.store_account_votes(account, votes, points, offset);
        assert(self.receiver_weights() == recv_after);
    }

    /// Records the active locks the token locker reports for `account` in
    /// week `week`: a frozen amount weighs the longest lock, else the lock
    /// amounts and unlock weeks are written over the stored ones; returns the
    /// account's frozen weight.
    pub fn register_account_weight_internal(&mut self, account: &Pubkey, lock_data: &[LockData], frozen: u64, week: u16) -> (r: u64)
        requires
            old(self).well_formed(),
            old(self).spec_accounts().contains_key(account@),
            frozen > 0 || lock_data@.len() > 0,
            frozen > 0 ==> frozen * MAX_LOCK_WEEKS <= u64::MAX,
            frozen == 0 ==> old(self).spec_accounts()[account@].locked_amounts@.len() >= lock_data@.len()
                && old(self).spec_accounts()[account@].weeks_to_unlock@.len() >= lock_data@.len(),
        ensures
            final(self).well_formed(),
            ({
                let d = old(self).spec_accounts()[account@];
                let after = final(self).spec_accounts()[account@];
                &&& final(self).spec_accounts() == old(self).spec_accounts().insert(account@, after)
                &&& after.frozen_weight == (if frozen > 0 { frozen * MAX_LOCK_WEEKS } else { d.frozen_weight as int })
                &&& after.locked_amounts@ == (if frozen > 0 { d.locked_amounts@ } else { written_amounts(d.locked_amounts@, lock_data@) })
                &&& after.weeks_to_unlock@ == (if frozen > 0 { d.weeks_to_unlock@ } else { written_weeks(d.weeks_to_unlock@, lock_data@) })
                &&& after.week == week
                &&& after.lock_length == lock_data@.len() as u8
                &&& after.points == d.points
                &&& after.vote_length == d.vote_length
                &&& after.active_votes@ == d.active_votes@
                &&& r == after.frozen_weight
            }),
            final(self).receiver_weights() == old(self).receiver_weights(),
            final(self).total_weights() == old(self).total_weights(),
            final(self).spec_system_start() == old(self).spec_system_start(),
            final(self).spec_contracts() == old(self).spec_contracts(),
    {
        let mut data = self.account_lock_data.remove(account).unwrap();
        let ghost d = data;
        let length = lock_data.len();
        if frozen > 0 {
            data.frozen_weight = frozen * MAX_LOCK_WEEKS as u64;
        } else {
            let mut i: usize = 0;
            while i < length
                invariant
                    i <= length == lock_data@.len(),
                    d.locked_amounts@.len() >= length,
                    d.weeks_to_unlock@.len() >= length,
                    data.locked_amounts@ == Seq::new(d.locked_amounts@.len(), |j: int| if j < i { lock_data@[j].amount } else { d.locked_amounts@[j] }),
                    data.weeks_to_unlock@ == Seq::new(d.weeks_to_unlock@.len(), |j: int| if j < i { lock_data@[j].weeks_to_unlock } else { d.weeks_to_unlock@[j] }),
                    data.frozen_weight == d.frozen_weight,
                    data.points == d.points,
                    data.vote_length == d.vote_length,
                    data.active_votes@ == d.active_votes@,
                decreases length - i,
            {
                data.locked_amounts.set(i, lock_data[i].amount);
                data.weeks_to_unlock.set(i, lock_data[i].weeks_to_unlock);
                proof {
                    assert(data.locked_amounts@ =~= Seq::new(d.locked_amounts@.len(), |j: int| if j < i + 1 { lock_data@[j].amount } else { d.locked_amounts@[j] }));
                    assert(data.weeks_to_unlock@ =~= Seq::new(d.weeks_to_unlock@.len(), |j: int| if j < i + 1 { lock_data@[j].weeks_to_unlock } else { d.weeks_to_unlock@[j] }));
                }
                i = i + 1;
            }
            assert(data.locked_amounts@ =~= written_amounts(d.locked_amounts@, lock_data@));
            assert(data.weeks_to_unlock@ =~= written_weeks(d.weeks_to_unlock@, lock_data@));
        }
        data.week = week;
        data.lock_length = length as u8;
        let frozen_weight = data.frozen_weight;
        let ghost after = data;
        self.account_lock_data.insert(*account, data);
        assert(self.spec_accounts() =~= old(self).spec_accounts().insert(account@, after));
        frozen_weight
    }

    /// Registers the weight of `account`'s active locks, as the token locker
    /// reports them, in week `current_week`, and moves the account's votes
    /// to the new weight: what they gave at the old weight is taken back and
    /// what they give at the new weight is added.
    pub fn register_account_weight(&mut self, account: &Pubkey, lock_data: &[LockData], frozen: u64, current_week: u16)
        requires
            old(self).well_formed(),
            old(self).spec_accounts().contains_key(account@),
            frozen > 0 || lock_data@.len() > 0,
            frozen > 0 ==> frozen * MAX_LOCK_WEEKS <= u64::MAX,
            frozen == 0 ==> old(self).spec_accounts()[account@].locked_amounts@.len() >= lock_data@.len()
                && old(self).spec_accounts()[account@].weeks_to_unlock@.len() >= lock_data@.len(),
            ({
                let d = old(self).spec_accounts()[account@];
                let existing = registered_votes(d);
                let cw = current_week as int;
                let len0 = d.lock_length as int;
                let f0 = d.frozen_weight;
                let len1 = (lock_data@.len() as u8) as int;
                let f1 = if frozen > 0 { (frozen * MAX_LOCK_WEEKS) as u64 } else { d.frozen_weight };
                &&& existing.len() > 0 && len0 > 0 ==> cw + len0 <= MAX_SLOTS && receivers_in_range(existing)
                &&& existing.len() > 0 && len1 > 0 ==> cw + len1 <= MAX_SLOTS && receivers_in_range(existing)
                &&& forall|r: u16, w: u16| #[trigger] stored_weight(old(self).receiver_weights(), (r, w))
                    >= receiver_added(existing, r as int, w as int, cw, len0, f0)
                &&& forall|w: int| 0 <= w < MAX_SLOTS ==> #[trigger] old(self).total_weights()[w]
                    >= total_added(existing, w, cw, len0, f0)
                &&& forall|r: u16, w: u16| moved(
                    #[trigger] stored_weight(old(self).receiver_weights(), (r, w)),
                    receiver_added(existing, r as int, w as int, cw, len0, f0),
                    receiver_added(existing, r as int, w as int, cw, len1, f1),
                ) <= u64::MAX
                &&& forall|w: int| 0 <= w < MAX_SLOTS ==> moved(
                    #[trigger] old(self).total_weights()[w] as int,
                    total_added(existing, w, cw, len0, f0),
                    total_added(existing, w, cw, len1, f1),
                ) <= u64::MAX
            }),
        ensures
            final(self).well_formed(),
            ({
                let d = old(self).spec_accounts()[account@];
                let existing = registered_votes(d);
                let cw = current_week as int;
                let len0 = d.lock_length as int;
                let f0 = d.frozen_weight;
                let after = final(self).spec_accounts()[account@];
                let len1 = after.lock_length as int;
                let f1 = after.frozen_weight;
                &&& final(self).spec_accounts() == old(self).spec_accounts().insert(account@, after)
                &&& after.frozen_weight == (if frozen > 0 { frozen * MAX_LOCK_WEEKS } else { d.frozen_weight as int })
                &&& after.locked_amounts@ == (if frozen > 0 { d.locked_amounts@ } else { written_amounts(d.locked_amounts@, lock_data@) })
                &&& after.weeks_to_unlock@ == (if frozen > 0 { d.weeks_to_unlock@ } else { written_weeks(d.weeks_to_unlock@, lock_data@) })
                &&& after.week == current_week
                &&& after.lock_length == lock_data@.len() as u8
                &&& after.points == d.points
                &&& after.vote_length == d.vote_length
                &&& after.active_votes@ == d.active_votes@
                &&& forall|r: u16, w: u16| #[trigger] stored_weight(final(self).receiver_weights(), (r, w)) == moved(
                    stored_weight(old(self).receiver_weights(), (r, w)),
                    receiver_added(existing, r as int, w as int, cw, len0, f0),
                    receiver_added(existing, r as int, w as int, cw, len1, f1),
                )
                &&& final(self).total_weights().len() == MAX_SLOTS
                &&& forall|w: int| 0 <= w < MAX_SLOTS ==> #[trigger] final(self).total_weights()[w] == moved(
                    old(self).total_weights()[w] as int,
                    total_added(existing, w, cw, len0, f0),
                    total_added(existing, w, cw, len1, f1),
                )
            }),
            final(self).spec_system_start() == old(self).spec_system_start(),
            final(self).spec_contracts() == old(self).spec_contracts(),
    {
        let (old_frozen, vote_length) = {
            let data = self.account_lock_data.get(account).unwrap();
            (data.frozen_weight, data.vote_length)
        };
        let ghost d = old(self).spec_accounts()[account@];
        let ghost cw = current_week as int;
        let existing = if vote_length > 0 {
            self.get_account_current_votes(account)
        } else {
            Vec::new()
        };
        assert(existing@ == registered_votes(d));
        let week = current_week as u64;
        if existing.len() > 0 {
            self.remove_vote_weights(account, &existing, old_frozen, week);
        }
        let ghost mid_recv = self.receiver_weights();
        let ghost mid_total = self.total_weights();
        assert forall|r: u16, w: u16| #[trigger] stored_weight(mid_recv, (r, w)) == stored_weight(old(self).receiver_weights(), (r, w))
            - receiver_added(existing@, r as int, w as int, cw, d.lock_length as int, d.frozen_weight) by {
            if existing@.len() == 0 {
                assert(receiver_added(existing@, r as int, w as int, cw, d.lock_length as int, d.frozen_weight) == 0);
            }
        }
        assert forall|w: int| 0 <= w < MAX_SLOTS implies #[trigger] mid_total[w] == old(self).total_weights()[w]
            - total_added(existing@, w, cw, d.lock_length as int, d.frozen_weight) by {
            if existing@.len() == 0 {
                assert(total_added(existing@, w, cw, d.lock_length as int, d.frozen_weight) == 0);
            }
        }
        let frozen_weight = self.register_account_weight_internal(account, lock_data, frozen, current_week);
        let ghost len1 = (lock_data@.len() as u8) as int;
        proof {
            assert forall|r: u16, w: u16| #[trigger] stored_weight(self.receiver_weights(), (r, w)) + receiver_added(
                existing@, r as int, w as int, cw, len1, frozen_weight) <= u64::MAX by {
                assert(moved(
                    stored_weight(old(self).receiver_weights(), (r, w)),
                    receiver_added(existing@, r as int, w as int, cw, d.lock_length as int, d.frozen_weight),
                    receiver_added(existing@, r as int, w as int, cw, len1, frozen_weight),
                ) <= u64::MAX);
            }
            assert forall|w: int| 0 <= w < MAX_SLOTS implies #[trigger] self.total_weights()[w] + total_added(
                existing@, w, cw, len1, frozen_weight) <= u64::MAX by {
                assert(moved(
                    old(self).total_weights()[w] as int,
                    total_added(existing@, w, cw, d.lock_length as int, d.frozen_weight),
                    total_added(existing@, w, cw, len1, frozen_weight),
                ) <= u64::MAX);
            }
        }
        self.add_vote_weights(account, &existing, frozen_weight, week);
        proof {
            assert forall|r: u16, w: u16| #[trigger] stored_weight(self.receiver_weights(), (r, w)) == moved(
                stored_weight(old(self).receiver_weights(), (r, w)),
                receiver_added(existing@, r as int, w as int, cw, d.lock_length as int, d.frozen_weight),
                receiver_added(existing@, r as int, w as int, cw, len1, frozen_weight),
            ) by {
                assert(stored_weight(mid_recv, (r, w)) == stored_weight(old(self).receiver_weights(), (r, w))
                    - receiver_added(existing@, r as int, w as int, cw, d.lock_length as int, d.frozen_weight));
            }
            assert forall|w: int| 0 <= w < MAX_SLOTS implies #[trigger] self.total_weights()[w] == moved(
                old(self).total_weights()[w] as int,
                total_added(existing@, w, cw, d.lock_length as int, d.frozen_weight),
                total_added(existing@, w, cw, len1, frozen_weight),
            ) by {
                assert(mid_total[w] == old(self).total_weights()[w]
                    - total_added(existing@, w, cw, d.lock_length as int, d.frozen_weight));
            }
        }
    }
}

} // verus!
