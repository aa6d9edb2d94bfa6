//! Linear vesting of allocated tokens: allocations by points, claims of what
//! has vested, transfers of points, and locking of future claims.
use crate::arch::{InputToSign, TransactionToSign};
use crate::btc::{encode_transaction, serialize_transaction, OutPoint, Transaction, TxIn, TxOut, UtxoSet, spec_txid};
use crate::types::{Pubkey, PubkeyMap, TableKey};
use vstd::prelude::*;

verus! {

/// The time units the contract counts for one week of vesting.
pub const WEEK_UNITS: u64 = 1_000_000;

/// A recipient's share: its points and its vesting period in weeks.
#[derive(Clone, Copy, Debug)]
pub struct AllocationSplit {
    pub recipient: Pubkey,
    pub points: u32,
    pub number_of_weeks: u8,
}

/// A payment the vault owes: tokens moved from the vault to `recipient`.
#[derive(Clone, Copy, Debug)]
pub struct VaultPayment {
    pub recipient: Pubkey,
    pub amount: u128,
}

/// The lock that an early claim asks the token locker to make: the tokens
/// moved from the vault to the locker, and the lock units (tokens divided by
/// the lock-to-token ratio) locked for `receiver` for `weeks` weeks, and
/// the payment of what was claimable, claimed first, if anything was.
#[derive(Clone, Copy, Debug)]
pub struct FutureLock {
    pub receiver: Pubkey,
    pub tokens: u128,
    pub units: u128,
    pub weeks: u16,
    pub claim_payment: Option<VaultPayment>,
}

/// The weeks for which early claims are locked.
pub const FUTURE_LOCK_WEEKS: u16 = 52;

/// What came of an early claim, given the outcome `outcome` of its
/// accounting: the same error, or the lock of the claimed tokens for
/// `receiver` for `FUTURE_LOCK_WEEKS` weeks, with `payment` (recipient and
/// amount) as the payment of the claim made first.
pub open spec fn lock_request_matches(
    r: Result<FutureLock, ContractError>,
    outcome: Result<u128, ContractError>,
    receiver: Seq<u8>,
    ratio: u128,
    payment: Option<(Seq<u8>, int)>,
) -> bool {
    match r {
        Ok(l) => {
            &&& outcome == Ok::<u128, ContractError>(l.tokens)
            &&& l.receiver@ == receiver
            &&& l.units == l.tokens / ratio
            &&& l.weeks == FUTURE_LOCK_WEEKS
            &&& match l.claim_payment {
                Some(p) => payment == Some((p.recipient@, p.amount as int)),
                None => payment is None,
            }
        },
        Err(e) => outcome == Err::<u128, ContractError>(e),
    }
}

/// What an account holds: its points, its vesting period, how much it has
/// claimed and how much of that it claimed early by locking.
#[derive(Clone, Copy, Debug, PartialEq, Eq, Structural)]
pub struct AllocationState {
    pub points: u32,
    pub number_of_weeks: u8,
    pub claimed: u128,
    pub preclaimed: u128,
}

/// Why an operation of the vesting contract was refused.
#[derive(Clone, Copy, Debug, PartialEq, Eq, Structural)]
pub enum ContractError {
    NothingToClaim,
    CannotLock,
    WrongMaxTotalPreclaimPct,
    PreclaimTooLarge,
    AllocationsMismatch,
    ZeroTotalAllocation,
    ZeroAllocation,
    ZeroNumberOfWeeks,
    DuplicateAllocation,
    InsufficientPoints,
    LockedAllocation,
    IllegalVestingStart,
    VestingAlreadyStarted,
    IncompatibleVestingPeriod,
    UtxoNotFound,
    InvalidUtxo,
}

/// The time from the vesting start to `when`, capped at the vesting period.
pub open spec fn elapsed(start: u64, when: u64, weeks: u8) -> int {
    let end = start + weeks * WEEK_UNITS;
    if when >= end { end - start } else { when - start }
}

/// The amount vested at `when` for an allocation of `points` over `weeks`:
/// the allocation's share of the total, in proportion to the elapsed time.
pub open spec fn spec_vested(
    start: Option<u64>,
    total_allocation: u128,
    total_points: u32,
    when: u64,
    points: u32,
    weeks: u8,
) -> int {
    match start {
        None => 0,
        Some(s) => if weeks == 0 {
            0
        } else {
            (total_allocation * elapsed(s, when, weeks) * points) / (total_points * (weeks * WEEK_UNITS))
        },
    }
}

/// The vested amount is defined at `when`: the vesting has started by then,
/// the period ends within `u64`, the total points are positive and the
/// product fits in `u128`.
pub open spec fn vest_defined(
    start: Option<u64>,
    total_allocation: u128,
    total_points: u32,
    when: u64,
    points: u32,
    weeks: u8,
) -> bool {
    match start {
        None => true,
        Some(s) => weeks == 0 || {
            &&& when >= s
            &&& s + weeks * WEEK_UNITS <= u64::MAX
            &&& total_points > 0
            &&& total_allocation * elapsed(s, when, weeks) <= u128::MAX
            &&& total_allocation * elapsed(s, when, weeks) * points <= u128::MAX
        },
    }
}

/// The first reason, in list order, for which a split is refused.
pub open spec fn first_split_error(splits: Seq<AllocationSplit>, existing: Map<Seq<u8>, AllocationState>) -> Option<ContractError>
    decreases splits.len(),
{
    if splits.len() == 0 {
        None
    } else if splits[0].points == 0 {
        Some(ContractError::ZeroAllocation)
    } else if splits[0].number_of_weeks == 0 {
        Some(ContractError::ZeroNumberOfWeeks)
    } else if existing.contains_key(splits[0].recipient@) {
        Some(ContractError::DuplicateAllocation)
    } else {
        first_split_error(splits.drop_first(), existing)
    }
}

/// The sum of the splits' points.
pub open spec fn sum_points(splits: Seq<AllocationSplit>) -> int
    decreases splits.len(),
{
    if splits.len() == 0 { 0 } else { sum_points(splits.drop_last()) + splits.last().points }
}

/// The allocations after recording the splits in order (a later split for the
/// same recipient replaces an earlier one).
pub open spec fn with_splits(m: Map<Seq<u8>, AllocationState>, splits: Seq<AllocationSplit>) -> Map<Seq<u8>, AllocationState>
    decreases splits.len(),
{
    if splits.len() == 0 {
        m
    } else {
        let s = splits.last();
        with_splits(m, splits.drop_last()).insert(
            s.recipient@,
            AllocationState { points: s.points, number_of_weeks: s.number_of_weeks, claimed: 0, preclaimed: 0 },
        )
    }
}

/// An allocation with nothing in it and the given vesting period.
pub open spec fn empty_allocation(weeks: u8) -> AllocationState {
    AllocationState { points: 0, number_of_weeks: weeks, claimed: 0, preclaimed: 0 }
}

proof fn lemma_sum_points_prefix(splits: Seq<AllocationSplit>, i: int)
    requires
        0 <= i < splits.len(),
    ensures
        sum_points(splits.take(i + 1)) == sum_points(splits.take(i)) + splits[i].points,
{
    assert(splits.take(i + 1).drop_last() =~= splits.take(i));
}

proof fn lemma_sum_points_monotonic(splits: Seq<AllocationSplit>, i: int, j: int)
    requires
        0 <= i <= j <= splits.len(),
    ensures
        sum_points(splits.take(i)) <= sum_points(splits.take(j)),
    decreases j - i,
{
    if i < j {
        lemma_sum_points_prefix(splits, j - 1);
        lemma_sum_points_monotonic(splits, i, j - 1);
    }
}

/// The vesting contract: allocations per account, the total to vest, the
/// vesting start, and the unspent outputs it holds.
pub struct AllocationVesting {
    allocations: PubkeyMap<AllocationState>,
    max_total_preclaim_pct: u32,
    total_allocation: u128,
    total_points: u32,
    vesting_start: Option<u64>,
    owner: Pubkey,
    lock_to_token_ratio: u128,
    utxos: UtxoSet,
}

impl AllocationVesting {
    pub closed spec fn well_formed(&self) -> bool {
        &&& self.allocations.well_formed()
        &&& self.utxos.well_formed()
        &&& self.total_allocation > 0
        &&& self.max_total_preclaim_pct <= 20
        &&& self.lock_to_token_ratio > 0
        &&& forall|k: Seq<u8>| #[trigger] self.allocations.view().contains_key(k) ==> self.total_points > 0
    }

    /// What well-formedness gives: a positive total allocation and
    /// lock-to-token ratio, a preclaim cap of at most 20%, and positive total
    /// points once any allocation is held.
    pub proof fn lemma_well_formed_settings(&self)
        requires
            self.well_formed(),
        ensures
            self.spec_total_allocation() > 0,
            self.spec_lock_to_token_ratio() > 0,
            self.spec_max_total_preclaim_pct() <= 20,
            forall|k: Seq<u8>| #[trigger] self.allocations().contains_key(k) ==> self.spec_total_points() > 0,
    {
    }

    pub closed spec fn allocations(&self) -> Map<Seq<u8>, AllocationState> {
        self.allocations.view()
    }

    pub closed spec fn spec_vesting_start(&self) -> Option<u64> {
        self.vesting_start
    }

    pub closed spec fn spec_total_allocation(&self) -> u128 {
        self.total_allocation
    }

    pub closed spec fn spec_total_points(&self) -> u32 {
        self.total_points
    }

    pub closed spec fn spec_max_total_preclaim_pct(&self) -> u32 {
        self.max_total_preclaim_pct
    }

    pub closed spec fn spec_lock_to_token_ratio(&self) -> u128 {
        self.lock_to_token_ratio
    }

    pub closed spec fn spec_owner(&self) -> Seq<u8> {
        self.owner@
    }

    pub closed spec fn utxo_view(&self) -> Map<(Seq<u8>, u32), (u64, Seq<u8>)> {
        self.utxos.view()
    }

    /// The amount an allocation has vested at `when`.
    pub open spec fn vested(&self, when: u64, a: AllocationState) -> int {
        spec_vested(
            self.spec_vesting_start(),
            self.spec_total_allocation(),
            self.spec_total_points(),
            when,
            a.points,
            a.number_of_weeks,
        )
    }

    /// What an allocation can claim at `when`: what has vested beyond what it claimed.
    pub open spec fn claimable(&self, when: u64, a: AllocationState) -> int {
        if self.vested(when, a) > a.claimed { self.vested(when, a) - a.claimed } else { 0 }
    }

    pub open spec fn defined_at(&self, when: u64, a: AllocationState) -> bool {
        vest_defined(
            self.spec_vesting_start(),
            self.spec_total_allocation(),
            self.spec_total_points(),
            when,
            a.points,
            a.number_of_weeks,
        )
    }

    /// Every other part of the contract is as in `other`.
    pub open spec fn same_settings(&self, other: &Self) -> bool {
        &&& self.spec_vesting_start() == other.spec_vesting_start()
        &&& self.spec_total_allocation() == other.spec_total_allocation()
        &&& self.spec_total_points() == other.spec_total_points()
        &&& self.spec_max_total_preclaim_pct() == other.spec_max_total_preclaim_pct()
        &&& self.spec_lock_to_token_ratio() == other.spec_lock_to_token_ratio()
        &&& self.spec_owner() == other.spec_owner()
        &&& self.utxo_view() == other.utxo_view()
    }

    /// A contract that vests `total_allocation` with at most
    /// `max_total_preclaim_pct` percent of each allocation claimable early.
    pub fn new(total_allocation: u128, max_total_preclaim_pct: u32, owner: Pubkey, lock_to_token_ratio: u128) -> (r: Self)
        requires
            total_allocation > 0,
            max_total_preclaim_pct <= 20,
            lock_to_token_ratio > 0,
        ensures
            r.well_formed(),
            r.allocations() == Map::<Seq<u8>, AllocationState>::empty(),
            r.spec_vesting_start() is None,
            r.spec_total_allocation() == total_allocation,
            r.spec_total_points() == 0,
            r.spec_max_total_preclaim_pct() == max_total_preclaim_pct,
            r.spec_lock_to_token_ratio() == lock_to_token_ratio,
            r.spec_owner() == owner@,
            r.utxo_view() == Map::<(Seq<u8>, u32), (u64, Seq<u8>)>::empty(),
    {
        Self {
            allocations: PubkeyMap::new(),
            max_total_preclaim_pct,
            total_allocation,
            total_points: 0,
            vesting_start: None,
            owner,
            lock_to_token_ratio,
            utxos: UtxoSet::new(),
        }
    }

    /// The allocation of `account`, if it has one.
    pub fn allocation(&self, account: &Pubkey) -> (r: Option<AllocationState>)
        requires
            self.well_formed(),
        ensures
            r == if self.allocations().contains_key(account@) {
                Some(self.allocations()[account@])
            } else {
                None::<AllocationState>
            },
    {
        match self.allocations.get(account) {
            Some(a) => Some(*a),
            None => None,
        }
    }

    /// The vesting start, once the allocations are set.
    pub fn vesting_start(&self) -> (r: Option<u64>)
        ensures
            r == self.spec_vesting_start(),
    {
        self.vesting_start
    }

    /// Starts vesting at `vesting_start` with the given splits. The start is
    /// recorded even when a split is then refused; the splits are recorded
    /// only when none is refused.
    pub fn set_allocations(&mut self, allocation_splits: Vec<AllocationSplit>, vesting_start: u64) -> (r: Result<(), ContractError>)
        requires
            old(self).well_formed(),
            sum_points(allocation_splits@) <= u32::MAX,
        ensures
            final(self).well_formed(),
            old(self).spec_vesting_start() is Some ==> r == Err::<(), ContractError>(ContractError::VestingAlreadyStarted) && *final(self) == *old(self),
            old(self).spec_vesting_start() is None ==> {
                &&& final(self).spec_vesting_start() == Some(vesting_start)
                &&& r == match first_split_error(allocation_splits@, old(self).allocations()) {
                    Some(e) => Err(e),
                    None => if sum_points(allocation_splits@) == 0 {
                        Err(ContractError::InsufficientPoints)
                    } else {
                        Ok(())
                    },
                }
                &&& r is Ok ==> final(self).allocations() == with_splits(old(self).allocations(), allocation_splits@)
                    && final(self).spec_total_points() == sum_points(allocation_splits@)
                &&& r is Err ==> final(self).allocations() == old(self).allocations()
                    && final(self).spec_total_points() == old(self).spec_total_points()
                &&& final(self).spec_total_allocation() == old(self).spec_total_allocation()
                &&& final(self).spec_max_total_preclaim_pct() == old(self).spec_max_total_preclaim_pct()
                &&& final(self).spec_lock_to_token_ratio() == old(self).spec_lock_to_token_ratio()
                &&& final(self).spec_owner() == old(self).spec_owner()
                &&& final(self).utxo_view() == old(self).utxo_view()
            },
    {
        if self.vesting_start.is_some() {
            return Err(ContractError::VestingAlreadyStarted);
        }
        self.vesting_start = Some(vesting_start);

        let ghost splits = allocation_splits@;
        let mut total_points: u32 = 0;
        let mut i: usize = 0;
        assert(splits.skip(0) =~= splits);
        assert(splits.take(0) =~= Seq::<AllocationSplit>::empty());
        while i < allocation_splits.len()
            invariant
                self.well_formed(),
                old(self).spec_vesting_start() is None,
                self.allocations() == old(self).allocations(),
                self.vesting_start == Some(vesting_start),
                self.total_allocation == old(self).total_allocation,
                self.max_total_preclaim_pct == old(self).max_total_preclaim_pct,
                self.lock_to_token_ratio == old(self).lock_to_token_ratio,
                self.owner == old(self).owner,
                self.utxos == old(self).utxos,
                self.total_points == old(self).total_points,
                splits == allocation_splits@,
                i <= splits.len(),
                sum_points(splits) <= u32::MAX,
                total_points == sum_points(splits.take(i as int)),
                first_split_error(splits, self.allocations()) == first_split_error(splits.skip(i as int), self.allocations()),
            decreases splits.len() - i,
        {
            let split = &allocation_splits[i];
            assert(splits.skip(i as int)[0] == splits[i as int]);
            assert(splits.skip(i as int).drop_first() =~= splits.skip(i + 1));
            if split.points == 0 {
                return Err(ContractError::ZeroAllocation);
            }
            if split.number_of_weeks == 0 {
                return Err(ContractError::ZeroNumberOfWeeks);
            }
            if self.allocations.contains_key(&split.recipient) {
                return Err(ContractError::DuplicateAllocation);
            }
            proof {
                lemma_sum_points_prefix(splits, i as int);
                lemma_sum_points_monotonic(splits, i + 1, splits.len() as int);
                assert(splits.take(splits.len() as int) =~= splits);
            }
            total_points = total_points + split.points;
            i = i + 1;
        }
        assert(splits.skip(i as int).len() == 0);
        assert(splits.take(i as int) =~= splits);

        if total_points == 0 {
            return Err(ContractError::InsufficientPoints);
        }

        let ghost base = self.allocations();
        let mut j: usize = 0;
        while j < allocation_splits.len()
            invariant
                self.allocations.well_formed(),
                self.utxos.well_formed(),
                splits == allocation_splits@,
                j <= splits.len(),
                self.allocations() == with_splits(base, splits.take(j as int)),
                self.vesting_start == Some(vesting_start),
                self.total_allocation == old(self).total_allocation,
                self.max_total_preclaim_pct == old(self).max_total_preclaim_pct,
                self.lock_to_token_ratio == old(self).lock_to_token_ratio,
                self.owner == old(self).owner,
                self.utxos == old(self).utxos,
                self.total_points == old(self).total_points,
            decreases splits.len() - j,
        {
            let split = allocation_splits[j];
            self.allocations.insert(
                split.recipient,
                AllocationState { points: split.points, number_of_weeks: split.number_of_weeks, claimed: 0, preclaimed: 0 },
            );
            assert(splits.take(j + 1).drop_last() =~= splits.take(j as int));
            j = j + 1;
        }
        assert(splits.take(j as int) =~= splits);
        self.total_points = total_points;
        Ok(())
    }

    /// The amount vested at `when` for an allocation of `points` over `number_of_weeks`.
    fn vested_at(&self, when: u64, points: u32, number_of_weeks: u8) -> (r: u128)
        requires
            vest_defined(self.vesting_start, self.total_allocation, self.total_points, when, points, number_of_weeks),
        ensures
            r == spec_vested(self.vesting_start, self.total_allocation, self.total_points, when, points, number_of_weeks),
    {
        match self.vesting_start {
            None => 0,
            Some(vesting_start) => {
                if number_of_weeks == 0 {
                    return 0;
                }
                let vesting_weeks = number_of_weeks as u64 * WEEK_UNITS;
                let vesting_end = vesting_start + vesting_weeks;
                let end_time = if when >= vesting_end { vesting_end } else { when };
                let time_since_start = end_time - vesting_start;
                let numerator = self.total_allocation * time_since_start as u128;
                assert(numerator * points <= u128::MAX);
                let numerator = numerator * points as u128;
                assert(self.total_points * vesting_weeks <= u128::MAX) by (nonlinear_arith)
                    requires
                        self.total_points <= u32::MAX,
                        vesting_weeks <= u64::MAX,
                ;
                assert(self.total_points * vesting_weeks > 0) by (nonlinear_arith)
                    requires
                        self.total_points > 0,
                        vesting_weeks > 0,
                ;
                numerator / (self.total_points as u128 * vesting_weeks as u128)
            },
        }
    }

    /// What is claimable at `when` for an allocation that claimed `claimed`.
    fn claimable_at(&self, when: u64, points: u32, claimed: u128, number_of_weeks: u8) -> (r: u128)
        requires
            vest_defined(self.vesting_start, self.total_allocation, self.total_points, when, points, number_of_weeks),
        ensures
            r == self.claimable(when, AllocationState { points, number_of_weeks, claimed, preclaimed: 0 }),
            r > 0 ==> claimed + r == spec_vested(self.vesting_start, self.total_allocation, self.total_points, when, points, number_of_weeks),
            spec_vested(self.vesting_start, self.total_allocation, self.total_points, when, points, number_of_weeks) <= u128::MAX,
    {
        let total_vested = self.vested_at(when, points, number_of_weeks);
        if total_vested > claimed {
            total_vested - claimed
        } else {
            0
        }
    }

    /// Claims for `account` at `now` all that has vested: refused when the
    /// account has no allocation, no points, or nothing claimable. On success
    /// the account's claimed total becomes what has vested, which is returned
    /// with the payment of the claimable difference from the vault to the
    /// account.
    pub fn claim(&mut self, account: &Pubkey, now: u64) -> (r: Result<(u128, VaultPayment), ContractError>)
        requires
            old(self).well_formed(),
            old(self).allocations().contains_key(account@) ==> old(self).defined_at(now, old(self).allocations()[account@]),
        ensures
            final(self).well_formed(),
            final(self).same_settings(old(self)),
            ({
                let a = old(self).allocations()[account@];
                if !old(self).allocations().contains_key(account@) || a.points == 0 || old(self).claimable(now, a) == 0 {
                    r == Err::<(u128, VaultPayment), ContractError>(ContractError::NothingToClaim) && final(self).allocations()
                        == old(self).allocations()
                } else {
                    &&& r matches Ok((c, p)) && c == old(self).vested(now, a) && p.recipient@ == account@ && p.amount
                        == old(self).claimable(now, a)
                    &&& final(self).allocations() == old(self).allocations().insert(
                        account@,
                        AllocationState { claimed: old(self).vested(now, a) as u128, ..a },
                    )
                }
            }),
    {
        let a = match self.allocations.get(account) {
            Some(a) => *a,
            None => {
                return Err(ContractError::NothingToClaim);
            },
        };
        if a.points == 0 {
            return Err(ContractError::NothingToClaim);
        }
        let claimable = self.claimable_at(now, a.points, a.claimed, a.number_of_weeks);
        if claimable == 0 {
            return Err(ContractError::NothingToClaim);
        }
        let claimed_updated = a.claimed + claimable;
        self.allocations.insert(*account, AllocationState { claimed: claimed_updated, ..a });
        proof {
            assert forall|k: Seq<u8>| #[trigger] self.allocations.view().contains_key(k) implies self.total_points > 0 by {
                assert(old(self).allocations.view().contains_key(account@));
            }
        }
        Ok((claimed_updated, VaultPayment { recipient: *account, amount: claimable }))
    }

    /// Moves `points` of `from`'s allocation to `to`, with the matching share
    /// of what `from` has claimed. Refused, in this order, when `from` has no
    /// allocation, `to` vests over another period, `from` has claimed more
    /// than has vested, `points` is zero, `from` has fewer points, or `from`
    /// has nothing to claim now (the transfer first claims for `from`). Gives
    /// the payment of that claim from the vault to `from`.
    pub fn transfer_points(&mut self, from: &Pubkey, to: &Pubkey, points: u32, now: u64) -> (r: Result<VaultPayment, ContractError>)
        requires
            old(self).well_formed(),
            old(self).allocations().contains_key(from@) ==> old(self).defined_at(now, old(self).allocations()[from@]),
            old(self).allocations().contains_key(to@) ==> old(self).allocations()[to@].points + points <= u32::MAX,
            old(self).allocations().contains_key(from@) ==> old(self).vested(now, old(self).allocations()[from@]) * points
                <= u128::MAX,
            old(self).allocations().contains_key(to@) ==> old(self).allocations()[to@].claimed + old(self).vested(
                now,
                old(self).allocations()[from@],
            ) <= u128::MAX,
        ensures
            final(self).well_formed(),
            final(self).same_settings(old(self)),
            ({
                let fa = old(self).allocations()[from@];
                let ta = if old(self).allocations().contains_key(to@) {
                    old(self).allocations()[to@]
                } else {
                    empty_allocation(fa.number_of_weeks)
                };
                let v = old(self).vested(now, fa);
                let adj = (v * points / fa.points as int) as u128;
                let after_from = old(self).allocations().insert(
                    from@,
                    AllocationState { points: (fa.points - points) as u32, claimed: (v - adj) as u128, ..fa },
                );
                let ta2 = if after_from.contains_key(to@) { after_from[to@] } else { empty_allocation(fa.number_of_weeks) };
                let expected: Result<(), ContractError> = if !old(self).allocations().contains_key(from@) {
                    Err(ContractError::NothingToClaim)
                } else if ta.number_of_weeks != 0 && ta.number_of_weeks != fa.number_of_weeks {
                    Err(ContractError::IncompatibleVestingPeriod)
                } else if v < fa.claimed {
                    Err(ContractError::LockedAllocation)
                } else if points == 0 {
                    Err(ContractError::ZeroAllocation)
                } else if fa.points < points {
                    Err(ContractError::InsufficientPoints)
                } else if old(self).claimable(now, fa) == 0 {
                    Err(ContractError::NothingToClaim)
                } else {
                    Ok(())
                };
                &&& r is Ok <==> expected is Ok
                &&& r matches Err(e) ==> expected == Err::<(), ContractError>(e)
                &&& r matches Ok(p) ==> p.recipient@ == from@ && p.amount == old(self).claimable(now, fa)
                &&& r is Err ==> final(self).allocations() == old(self).allocations()
                &&& r is Ok ==> final(self).allocations() == after_from.insert(
                    to@,
                    AllocationState {
                        points: (ta2.points + points) as u32,
                        claimed: (ta2.claimed + adj) as u128,
                        ..ta2
                    },
                )
            }),
            r is Ok && from@ != to@ ==> final(self).allocations()[from@].points + final(self).allocations()[to@].points
                == old(self).allocations()[from@].points + (if old(self).allocations().contains_key(to@) {
                old(self).allocations()[to@].points as int
            } else {
                0
            }),
            r is Ok && from@ != to@ ==> final(self).allocations()[from@].claimed + final(self).allocations()[to@].claimed
                == old(self).vested(now, old(self).allocations()[from@]) + (if old(self).allocations().contains_key(to@) {
                old(self).allocations()[to@].claimed as int
            } else {
                0
            }),
            r is Ok && from@ != to@ && (!old(self).allocations().contains_key(to@) || old(self).allocations()[to@].number_of_weeks
                != 0) ==> final(self).allocations()[to@].number_of_weeks == old(self).allocations()[from@].number_of_weeks,
    {
        let from_allocation = match self.allocations.get(from) {
            Some(a) => *a,
            None => {
                return Err(ContractError::NothingToClaim);
            },
        };
        let to_allocation = match self.allocations.get(to) {
            Some(a) => *a,
            None => AllocationState { points: 0, number_of_weeks: 0, claimed: 0, preclaimed: 0 },
        };

        if to_allocation.number_of_weeks != 0 && to_allocation.number_of_weeks != from_allocation.number_of_weeks {
            return Err(ContractError::IncompatibleVestingPeriod);
        }

        let total_vested = self.vested_at(now, from_allocation.points, from_allocation.number_of_weeks);
        if total_vested < from_allocation.claimed {
            return Err(ContractError::LockedAllocation);
        }

        if points == 0 {
            return Err(ContractError::ZeroAllocation);
        }

        if from_allocation.points < points {
            return Err(ContractError::InsufficientPoints);
        }

        let (claimed, payment) = match self.claim(from, now) {
            Ok(c) => c,
            Err(e) => {
                return Err(e);
            },
        };

        proof {
            assert(claimed as int * points as int / from_allocation.points as int <= claimed) by (nonlinear_arith)
                requires
                    points <= from_allocation.points,
                    from_allocation.points > 0,
                    claimed >= 0,
            ;
        }
        let claimed_adjustment = (claimed * points as u128) / from_allocation.points as u128;

        let from_now = AllocationState {
            points: from_allocation.points - points,
            claimed: claimed - claimed_adjustment,
            ..from_allocation
        };
        self.allocations.insert(*from, from_now);

        let to_now = match self.allocations.get(to) {
            Some(a) => *a,
            None => AllocationState { points: 0, number_of_weeks: from_allocation.number_of_weeks, claimed: 0, preclaimed: 0 },
        };
        let ghost mid = self.allocations();
        proof {
            if to@ == from@ {
                assert(to_now.points + points <= u32::MAX);
            }
        }
        self.allocations.insert(
            *to,
            AllocationState {
                points: to_now.points + points,
                claimed: to_now.claimed + claimed_adjustment,
                ..to_now
            },
        );
        proof {
            assert forall|k: Seq<u8>| #[trigger] self.allocations.view().contains_key(k) implies self.total_points > 0 by {
                assert(old(self).allocations.view().contains_key(from@));
            }
        }
        Ok(payment)
    }

    /// Locks future claims of `account` for itself; see
    /// [`AllocationVesting::lock_future_claims_with_receiver`].
    pub fn lock_future_claims(&mut self, account: &Pubkey, amount: u128, now: u64) -> (r: Result<FutureLock, ContractError>)
        requires
            old(self).well_formed(),
            old(self).lock_defined(account@, now),
            old(self).allocations().contains_key(account@) ==> old(self).allocations()[account@].preclaimed + amount <= u128::MAX,
        ensures
            final(self).well_formed(),
            final(self).same_settings(old(self)),
            final(self).allocations() == old(self).lock_outcome(account@, amount, now).1,
            lock_request_matches(
                r,
                old(self).lock_outcome(account@, amount, now).0,
                account@,
                old(self).spec_lock_to_token_ratio(),
                old(self).lock_claim_payment(account@, now),
            ),
    {
        self.lock_future_claims_with_receiver(account, account, amount, now)
    }

    /// The payment of the claim that locking future claims of `account` at
    /// `now` makes first: what is claimable, when anything is.
    pub open spec fn lock_claim_payment(&self, account: Seq<u8>, now: u64) -> Option<(Seq<u8>, int)> {
        let a = self.allocations()[account];
        if self.claimable(now, a) > 0 { Some((account, self.claimable(now, a))) } else { None }
    }

    /// The claimed total of `a` once anything claimable at `now` is claimed.
    pub open spec fn claimed_after_claim(&self, now: u64, a: AllocationState) -> int {
        if self.claimable(now, a) > 0 { self.vested(now, a) } else { a.claimed as int }
    }

    /// The allocation's full amount: its share of the total by points.
    pub open spec fn user_allocation(&self, a: AllocationState) -> int {
        (a.points * self.spec_total_allocation()) / (self.spec_total_points() as int)
    }

    /// The most of `a` that may be claimed early.
    pub open spec fn max_total_preclaim(&self, a: AllocationState) -> int {
        (self.spec_max_total_preclaim_pct() * self.user_allocation(a)) / 100
    }

    /// Locking future claims of `account` at `now` computes without overflow
    /// or underflow.
    pub open spec fn lock_defined(&self, account: Seq<u8>, now: u64) -> bool {
        let a = self.allocations()[account];
        self.allocations().contains_key(account) && a.points > 0 && self.spec_vesting_start() is Some ==> {
            &&& self.defined_at(now, a)
            &&& a.points * self.spec_total_allocation() <= u128::MAX
            &&& self.user_allocation(a) >= self.claimed_after_claim(now, a)
            &&& self.spec_max_total_preclaim_pct() * self.user_allocation(a) <= u128::MAX
            &&& self.max_total_preclaim(a) >= a.preclaimed
        }
    }

    /// The result and allocations after locking `amount` (or, for zero, as
    /// much as may still be claimed early) of `account`'s future claims.
    pub open spec fn lock_outcome(&self, account: Seq<u8>, amount: u128, now: u64) -> (Result<u128, ContractError>, Map<Seq<u8>, AllocationState>) {
        let a = self.allocations()[account];
        if !self.allocations().contains_key(account) || a.points == 0 || self.spec_vesting_start() is None {
            (Err(ContractError::CannotLock), self.allocations())
        } else {
            let claimed = self.claimed_after_claim(now, a);
            let claimed_allocs = if self.claimable(now, a) > 0 {
                self.allocations().insert(account, AllocationState { claimed: claimed as u128, ..a })
            } else {
                self.allocations()
            };
            let unclaimed = self.user_allocation(a) - claimed;
            let left = self.max_total_preclaim(a) - a.preclaimed;
            if amount != 0 && (a.preclaimed + amount > self.max_total_preclaim(a) || amount > unclaimed) {
                (Err(ContractError::PreclaimTooLarge), claimed_allocs)
            } else {
                let wanted = if amount == 0 { if left < unclaimed { left } else { unclaimed } } else { amount as int };
                let locked = (wanted / self.spec_lock_to_token_ratio() as int) * self.spec_lock_to_token_ratio();
                (
                    Ok(locked as u128),
                    claimed_allocs.insert(
                        account,
                        AllocationState {
                            claimed: (claimed + locked) as u128,
                            preclaimed: (a.preclaimed + locked) as u128,
                            ..a
                        },
                    ),
                )
            }
        }
    }

    /// Claims early, by locking, part of `account`'s unvested allocation:
    /// `amount`, or for zero as much as is still allowed. Anything claimable
    /// is claimed first. The amount is rounded down to a multiple of the
    /// lock-to-token ratio and recorded as claimed and preclaimed. Gives the
    /// lock to make: those tokens move from the vault to the locker, and
    /// tokens / ratio lock units are locked for `receiver` for 52 weeks.
    pub fn lock_future_claims_with_receiver(&mut self, account: &Pubkey, receiver: &Pubkey, amount: u128, now: u64) -> (r:
        Result<FutureLock, ContractError>)
        requires
            old(self).well_formed(),
            old(self).lock_defined(account@, now),
            old(self).allocations().contains_key(account@) ==> old(self).allocations()[account@].preclaimed + amount <= u128::MAX,
        ensures
            final(self).well_formed(),
            final(self).same_settings(old(self)),
            final(self).allocations() == old(self).lock_outcome(account@, amount, now).1,
            lock_request_matches(
                r,
                old(self).lock_outcome(account@, amount, now).0,
                receiver@,
                old(self).spec_lock_to_token_ratio(),
                old(self).lock_claim_payment(account@, now),
            ),
    {
        let allocation = match self.allocations.get(account) {
            Some(a) => *a,
            None => {
                return Err(ContractError::CannotLock);
            },
        };
        if allocation.points == 0 || self.vesting_start.is_none() {
            return Err(ContractError::CannotLock);
        }

        let (claimed_updated, claim_payment) = if self.claimable_at(now, allocation.points, allocation.claimed, allocation.number_of_weeks) > 0 {
            match self.claim(account, now) {
                Ok((c, p)) => (c, Some(p)),
                Err(e) => {
                    return Err(e);
                },
            }
        } else {
            (allocation.claimed, None)
        };

        assert(self.total_points > 0) by {
            assert(old(self).allocations.view().contains_key(account@));
        }
        let user_allocation = (allocation.points as u128 * self.total_allocation) / self.total_points as u128;
        let unclaimed = user_allocation - claimed_updated;
        let preclaimed = allocation.preclaimed;
        let max_total_preclaim = (self.max_total_preclaim_pct as u128 * user_allocation) / 100;
        let left_to_preclaim = max_total_preclaim - preclaimed;

        let amount = if amount == 0 {
            if left_to_preclaim < unclaimed { left_to_preclaim } else { unclaimed }
        } else {
            if preclaimed + amount > max_total_preclaim || amount > unclaimed {
                return Err(ContractError::PreclaimTooLarge);
            }
            amount
        };

        let ratio = self.lock_to_token_ratio;
        assert((amount / ratio) * ratio <= amount) by (nonlinear_arith)
            requires
                ratio > 0,
        ;
        let amount = (amount / ratio) * ratio;

        let current = match self.allocations.get(account) {
            Some(a) => *a,
            None => allocation,
        };
        self.allocations.insert(
            *account,
            AllocationState { claimed: current.claimed + amount, preclaimed: current.preclaimed + amount, ..current },
        );
        proof {
            assert forall|k: Seq<u8>| #[trigger] self.allocations.view().contains_key(k) implies self.total_points > 0 by {
                assert(old(self).allocations.view().contains_key(account@));
            }
        }
        Ok(FutureLock { receiver: *receiver, tokens: amount, units: amount / ratio, weeks: FUTURE_LOCK_WEEKS, claim_payment })
    }

    /// Records output `vout` of `tx` as an unspent output of the contract.
    pub fn add_utxo(&mut self, tx: &Transaction, vout: u32, value: u64, script_pubkey: Vec<u8>)
        requires
            old(self).well_formed(),
        ensures
            final(self).well_formed(),
            final(self).allocations() == old(self).allocations(),
            final(self).utxo_view() == old(self).utxo_view().insert((spec_txid(*tx), vout), (value, script_pubkey@)),
    {
        self.utxos.add_utxo(tx, vout, value, script_pubkey);
    }

    /// Spends an unspent output of the contract; refused for an unknown one.
    pub fn spend_utxo(&mut self, outpoint: OutPoint) -> (r: Result<(), ContractError>)
        requires
            old(self).well_formed(),
        ensures
            final(self).well_formed(),
            final(self).allocations() == old(self).allocations(),
            r is Ok <==> old(self).utxo_view().contains_key(outpoint.key_view()),
            r is Err ==> r == Err::<(), ContractError>(ContractError::UtxoNotFound),
            final(self).utxo_view() == old(self).utxo_view().remove(outpoint.key_view()),
    {
        if !self.utxos.contains(&outpoint) {
            assert(self.utxos.view() =~= old(self).utxos.view().remove(outpoint.key_view()));
            return Err(ContractError::UtxoNotFound);
        }
        self.utxos.spend_utxo(outpoint);
        Ok(())
    }

    /// Whether `outpoint` is an unspent output of the contract.
    pub fn validate_utxo(&self, outpoint: &OutPoint) -> (r: bool)
        requires
            self.well_formed(),
        ensures
            r == self.utxo_view().contains_key(outpoint.key_view()),
    {
        self.utxos.contains(outpoint)
    }

    /// Whether every input of `tx` spends an output the runtime found owned:
    /// `inputs_owned[i]` is the runtime's verdict on the output that input
    /// `i` spends.
    pub fn verify_bitcoin_transaction(&self, tx: &Transaction, inputs_owned: &Vec<bool>) -> (r: bool)
        requires
            inputs_owned@.len() == tx.input@.len(),
        ensures
            r == (forall|i: int| 0 <= i < inputs_owned@.len() ==> #[trigger] inputs_owned@[i]),
    {
        let mut i: usize = 0;
        while i < tx.input.len()
            invariant
                i <= tx.input@.len(),
                inputs_owned@.len() == tx.input@.len(),
                forall|j: int| 0 <= j < i ==> #[trigger] inputs_owned@[j],
            decreases tx.input@.len() - i,
        {
            if !inputs_owned[i] {
                return false;
            }
            i = i + 1;
        }
        true
    }

    /// The transaction spending `inputs` into `outputs` (version 1, no lock
    /// time), serialized, with every input to be signed by the owner.
    pub fn create_bitcoin_transaction(&self, inputs: Vec<TxIn>, outputs: Vec<TxOut>) -> (r: TransactionToSign)
        requires
            inputs@.len() <= u32::MAX,
        ensures
            r.tx_bytes@ == encode_transaction(Transaction { version: 1, lock_time: 0, input: inputs, output: outputs }),
            r.inputs_to_sign@.len() == inputs@.len(),
            forall|i: int| 0 <= i < inputs@.len() ==> (#[trigger] r.inputs_to_sign@[i]).index == i
                && r.inputs_to_sign@[i].signer@ == self.spec_owner(),
    {
        let n = inputs.len();
        let tx = Transaction { version: 1, lock_time: 0, input: inputs, output: outputs };
        let tx_bytes = serialize_transaction(&tx);
        let mut inputs_to_sign: Vec<InputToSign> = Vec::new();
        let mut i: usize = 0;
        while i < n
            invariant
                i <= n,
                n <= u32::MAX,
                inputs_to_sign@.len() == i,
                forall|j: int| 0 <= j < i ==> (#[trigger] inputs_to_sign@[j]).index == j
                    && inputs_to_sign@[j].signer@ == self.owner@,
            decreases n - i,
        {
            inputs_to_sign.push(InputToSign { index: i as u32, signer: self.owner });
            i = i + 1;
        }
        TransactionToSign { tx_bytes, inputs_to_sign }
    }
}

} // verus!
