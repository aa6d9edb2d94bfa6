//! The emission schedule: the weekly emission percentage, the weeks for which
//! emissions are locked, and the owner's schedule of future percentages,
//! ordered from the latest week down.
use crate::arch::{signs_state_transition, state_transition_request, TransactionToSign};
use crate::btc::Transaction;
use crate::types::Pubkey;
use vstd::prelude::*;

verus! {

/// The largest weekly percentage, in hundredths of a percent.
pub const MAX_PCT: u64 = 10000;

/// The longest lock, in weeks.
pub const MAX_LOCK_WEEKS: u64 = 52;

/// The emission schedule's state.
pub struct EmissionSchedule {
    owner: Pubkey,
    system_start: u64,
    vault: Pubkey,
    voter: Pubkey,
    lock_weeks: u64,
    lock_decay_weeks: u64,
    weekly_pct: u64,
    scheduled_weekly_pct: Vec<(u64, u64)>,
}

/// Whether `schedule` is ordered by strictly falling weeks, all below
/// `u64::MAX`, with no percentage above `MAX_PCT`.
pub open spec fn schedule_valid(schedule: Seq<(u64, u64)>) -> bool {
    &&& forall|i: int, j: int| 0 <= i < j < schedule.len() ==> schedule[j].0 < schedule[i].0
    &&& forall|i: int| 0 <= i < schedule.len() ==> schedule[i].0 < u64::MAX
    &&& forall|i: int| 0 <= i < schedule.len() ==> schedule[i].1 <= MAX_PCT
}

/// The first complaint about the entries of `schedule` from position `i`
/// on, where `last` is the week of the entry before position `i`.
pub open spec fn schedule_error_from(schedule: Seq<(u64, u64)>, i: int, last: u64) -> Option<Seq<char>>
    decreases schedule.len() - i,
{
    if i < 0 || i >= schedule.len() {
        None
    } else if schedule[i].0 >= last {
        Some("Must sort by week descending"@)
    } else if schedule[i].1 > MAX_PCT {
        Some("Cannot exceed MAX_PCT"@)
    } else {
        schedule_error_from(schedule, i + 1, schedule[i].0)
    }
}

/// The first complaint about `schedule`, if any.
pub open spec fn schedule_error(schedule: Seq<(u64, u64)>) -> Option<Seq<char>> {
    schedule_error_from(schedule, 0, u64::MAX)
}

/// The entries from `i` on meet no complaint exactly when they fall
/// strictly from below `last` and carry no percentage above `MAX_PCT`.
proof fn lemma_schedule_error_from(schedule: Seq<(u64, u64)>, i: int, last: u64)
    requires
        0 <= i <= schedule.len(),
    ensures
        schedule_error_from(schedule, i, last) is None <==> {
            &&& forall|k: int, j: int| i <= k < j < schedule.len() ==> schedule[j].0 < schedule[k].0
            &&& forall|k: int| i <= k < schedule.len() ==> schedule[k].0 < last
            &&& forall|k: int| i <= k < schedule.len() ==> schedule[k].1 <= MAX_PCT
        },
    decreases schedule.len() - i,
{
    if i < schedule.len() {
        lemma_schedule_error_from(schedule, i + 1, schedule[i].0);
        if schedule_error_from(schedule, i, last) is None {
            assert forall|k: int| i <= k < schedule.len() implies schedule[k].0 < last by {
                if k > i {
                    assert(schedule[k].0 < schedule[i].0);
                }
            }
        }
    }
}

/// A schedule meets no complaint exactly when it is valid.
pub proof fn lemma_schedule_error_iff_invalid(schedule: Seq<(u64, u64)>)
    ensures
        schedule_error(schedule) is None <==> schedule_valid(schedule),
{
    lemma_schedule_error_from(schedule, 0, u64::MAX);
}

/// The first complaint about a lock by `caller` for `weeks`.
pub open spec fn lock_error(
    owner: Pubkey,
    caller: Pubkey,
    weeks: u64,
    utxos_owned: bool,
    caller_owned: bool,
) -> Option<Seq<char>> {
    if caller@ != owner@ {
        Some("Only owner can call this function"@)
    } else if weeks > MAX_LOCK_WEEKS {
        Some("Lock duration exceeds maximum allowed weeks"@)
    } else if !utxos_owned {
        Some("Invalid UTXO ownership"@)
    } else if !caller_owned {
        Some("Invalid caller account"@)
    } else {
        None
    }
}

/// The first complaint about a new schedule's settings.
pub open spec fn new_error(initial_lock_weeks: u64, lock_decay_weeks: u64, weekly_pct: u64, owner_owned: bool) -> Option<
    Seq<char>,
> {
    if initial_lock_weeks > MAX_LOCK_WEEKS {
        Some("Cannot exceed MAX_LOCK_WEEKS"@)
    } else if lock_decay_weeks == 0 {
        Some("Decay weeks cannot be 0"@)
    } else if weekly_pct > MAX_PCT {
        Some("Cannot exceed MAX_PCT"@)
    } else if !owner_owned {
        Some("Invalid owner account"@)
    } else {
        None
    }
}

impl EmissionSchedule {
    pub closed spec fn spec_owner(&self) -> Pubkey {
        self.owner
    }

    pub closed spec fn spec_system_start(&self) -> u64 {
        self.system_start
    }

    pub closed spec fn spec_vault(&self) -> Pubkey {
        self.vault
    }

    pub closed spec fn spec_voter(&self) -> Pubkey {
        self.voter
    }

    pub closed spec fn spec_lock_weeks(&self) -> u64 {
        self.lock_weeks
    }

    pub closed spec fn spec_lock_decay_weeks(&self) -> u64 {
        self.lock_decay_weeks
    }

    pub closed spec fn spec_weekly_pct(&self) -> u64 {
        self.weekly_pct
    }

    pub closed spec fn spec_schedule(&self) -> Seq<(u64, u64)> {
        self.scheduled_weekly_pct@
    }

    /// A schedule for `owner`, refused unless the lock is at most
    /// `MAX_LOCK_WEEKS`, the decay is at least one week, the percentage is at
    /// most `MAX_PCT` and the runtime found `owner`'s account owned
    /// (`owner_owned`). The initial schedule is kept as given.
    pub fn new(
        owner: Pubkey,
        system_start: u64,
        vault: Pubkey,
        voter: Pubkey,
        initial_lock_weeks: u64,
        lock_decay_weeks: u64,
        weekly_pct: u64,
        scheduled_weekly_pct: Vec<(u64, u64)>,
        owner_owned: bool,
    ) -> (r: Result<Self, &'static str>)
        ensures
            ({
                let e = new_error(initial_lock_weeks, lock_decay_weeks, weekly_pct, owner_owned);
                &&& r is Ok <==> e is None
                &&& r matches Err(msg) ==> e == Some(msg@)
            }),
            r matches Ok(s) ==> {
                &&& s.spec_owner() == owner
                &&& s.spec_system_start() == system_start
                &&& s.spec_vault() == vault
                &&& s.spec_voter() == voter
                &&& s.spec_lock_weeks() == initial_lock_weeks
                &&& s.spec_lock_decay_weeks() == lock_decay_weeks
                &&& s.spec_weekly_pct() == weekly_pct
                &&& s.spec_schedule() == scheduled_weekly_pct@
            },
    {
        if initial_lock_weeks > MAX_LOCK_WEEKS {
            return Err("Cannot exceed MAX_LOCK_WEEKS");
        }
        if lock_decay_weeks == 0 {
            return Err("Decay weeks cannot be 0");
        }
        if weekly_pct > MAX_PCT {
            return Err("Cannot exceed MAX_PCT");
        }
        if !owner_owned {
            return Err("Invalid owner account");
        }
        Ok(EmissionSchedule {
            owner,
            system_start,
            vault,
            voter,
            lock_weeks: initial_lock_weeks,
            lock_decay_weeks,
            weekly_pct,
            scheduled_weekly_pct,
        })
    }

    /// The weeks for which emissions are locked.
    pub fn lock_weeks(&self) -> (r: u64)
        ensures
            r == self.spec_lock_weeks(),
    {
        self.lock_weeks
    }

    /// The current weekly percentage.
    pub fn weekly_pct(&self) -> (r: u64)
        ensures
            r == self.spec_weekly_pct(),
    {
        self.weekly_pct
    }

    /// The scheduled percentages, latest week first.
    pub fn scheduled_weekly_pct(&self) -> (r: &Vec<(u64, u64)>)
        ensures
            r@ == self.spec_schedule(),
    {
        &self.scheduled_weekly_pct
    }

    /// Checks `schedule` entry by entry: each week must fall below the one
    /// before it (the first below `u64::MAX`) and no percentage may exceed
    /// `MAX_PCT`.
    fn check_schedule(schedule: &Vec<(u64, u64)>) -> (r: Result<(), &'static str>)
        ensures
            r is Ok <==> schedule_error(schedule@) is None,
            r matches Err(msg) ==> schedule_error(schedule@) == Some(msg@),
    {
        let mut last_week: u64 = u64::MAX;
        let mut i: usize = 0;
        while i < schedule.len()
            invariant
                i <= schedule@.len(),
                schedule_error(schedule@) == schedule_error_from(schedule@, i as int, last_week),
            decreases schedule@.len() - i,
        {
            let (week, pct) = schedule[i];
            if week >= last_week {
                return Err("Must sort by week descending");
            }
            if pct > MAX_PCT {
                return Err("Cannot exceed MAX_PCT");
            }
            last_week = week;
            i = i + 1;
        }
        Ok(())
    }

    /// Replaces the schedule of future percentages. Only the owner may do so,
    /// the schedule must meet no complaint (see `schedule_error`) and the
    /// runtime must have found `caller`'s account owned (`caller_owned`);
    /// otherwise nothing changes.
    pub fn set_weekly_pct_schedule(&mut self, caller: Pubkey, schedule: Vec<(u64, u64)>, caller_owned: bool) -> (r:
        Result<(), &'static str>)
        ensures
            ({
                let e = if caller@ != old(self).spec_owner()@ {
                    Some("Only owner can call this function"@)
                } else if schedule_error(schedule@) is Some {
                    schedule_error(schedule@)
                } else if !caller_owned {
                    Some("Invalid caller account"@)
                } else {
                    None
                };
                &&& r is Ok <==> e is None
                &&& r matches Err(msg) ==> e == Some(msg@)
            }),
            r is Ok ==> schedule_valid(schedule@),
            final(self).spec_schedule() == (if r is Ok { schedule@ } else { old(self).spec_schedule() }),
            final(self).spec_owner() == old(self).spec_owner(),
            final(self).spec_lock_weeks() == old(self).spec_lock_weeks(),
            final(self).spec_weekly_pct() == old(self).spec_weekly_pct(),
            final(self).spec_lock_decay_weeks() == old(self).spec_lock_decay_weeks(),
            final(self).spec_system_start() == old(self).spec_system_start(),
            final(self).spec_vault() == old(self).spec_vault(),
            final(self).spec_voter() == old(self).spec_voter(),
    {
        if !caller.same(&self.owner) {
            return Err("Only owner can call this function");
        }
        match Self::check_schedule(&schedule) {
            Err(msg) => {
                return Err(msg);
            },
            Ok(()) => {},
        }
        proof {
            lemma_schedule_error_iff_invalid(schedule@);
        }
        if !caller_owned {
            return Err("Invalid caller account");
        }
        self.scheduled_weekly_pct = schedule;
        Ok(())
    }

    /// Locks emissions for `weeks`. Only the owner may do so, for at most
    /// `MAX_LOCK_WEEKS`, and only where the runtime found the schedule's
    /// UTXOs (`utxos_owned`) and `caller`'s account (`caller_owned`) owned;
    /// otherwise nothing changes. Gives the request to sign the runtime's
    /// state transition `state_tx` by `caller`.
    pub fn lock(&mut self, caller: Pubkey, weeks: u64, utxos_owned: bool, caller_owned: bool, state_tx: Transaction) -> (r:
        Result<TransactionToSign, &'static str>)
        ensures
            ({
                let e = lock_error(old(self).spec_owner(), caller, weeks, utxos_owned, caller_owned);
                &&& r is Ok <==> e is None
                &&& r matches Err(msg) ==> e == Some(msg@)
            }),
            r matches Ok(t) ==> signs_state_transition(t, state_tx, caller),
            final(self).spec_lock_weeks() == (if r is Ok { weeks } else { old(self).spec_lock_weeks() }),
            final(self).spec_owner() == old(self).spec_owner(),
            final(self).spec_schedule() == old(self).spec_schedule(),
            final(self).spec_weekly_pct() == old(self).spec_weekly_pct(),
            final(self).spec_lock_decay_weeks() == old(self).spec_lock_decay_weeks(),
            final(self).spec_system_start() == old(self).spec_system_start(),
            final(self).spec_vault() == old(self).spec_vault(),
            final(self).spec_voter() == old(self).spec_voter(),
    {
        if !caller.same(&self.owner) {
            return Err("Only owner can call this function");
        }
        if weeks > MAX_LOCK_WEEKS {
            return Err("Lock duration exceeds maximum allowed weeks");
        }
        if !utxos_owned {
            return Err("Invalid UTXO ownership");
        }
        if !caller_owned {
            return Err("Invalid caller account");
        }
        self.lock_weeks = weeks;
        Ok(state_transition_request(&state_tx, caller))
    }

    /// Unlocks emissions (a lock of zero weeks). Only the owner may do so,
    /// and only where the runtime found the schedule's UTXOs (`utxos_owned`)
    /// and `caller`'s account (`caller_owned`) owned; otherwise nothing
    /// changes. Gives the request to sign the runtime's state transition
    /// `state_tx` by `caller`.
    pub fn unlock(&mut self, caller: Pubkey, utxos_owned: bool, caller_owned: bool, state_tx: Transaction) -> (r: Result<
        TransactionToSign,
        &'static str,
    >)
        ensures
            ({
                let e = lock_error(old(self).spec_owner(), caller, 0, utxos_owned, caller_owned);
                &&& r is Ok <==> e is None
                &&& r matches Err(msg) ==> e == Some(msg@)
            }),
            r matches Ok(t) ==> signs_state_transition(t, state_tx, caller),
            final(self).spec_lock_weeks() == (if r is Ok { 0 } else { old(self).spec_lock_weeks() }),
            final(self).spec_owner() == old(self).spec_owner(),
            final(self).spec_schedule() == old(self).spec_schedule(),
            final(self).spec_weekly_pct() == old(self).spec_weekly_pct(),
            final(self).spec_lock_decay_weeks() == old(self).spec_lock_decay_weeks(),
            final(self).spec_system_start() == old(self).spec_system_start(),
            final(self).spec_vault() == old(self).spec_vault(),
            final(self).spec_voter() == old(self).spec_voter(),
    {
        self.lock(caller, 0, utxos_owned, caller_owned, state_tx)
    }
}

} // verus!
