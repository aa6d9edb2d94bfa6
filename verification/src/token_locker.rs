//! Token locks and the lock weight that decays week by week as locks run out.
use crate::arch::{signs_state_transition, state_transition_request, ProgramError, TransactionToSign};
use crate::btc::{OutPoint, Transaction, UtxoSet};
use crate::ownable::BabelOwnable;
use crate::system_start::SystemStart;
use crate::types::{Pubkey, PubkeyMap, TableKey};
use vstd::prelude::*;

verus! {

/// An account's locks: amounts locked, unlocked and frozen, the week of its
/// last update, a bitfield of the weeks in which locks run out, and its
/// weekly weights and unlock amounts.
pub struct AccountData {
    pub locked: u32,
    pub unlocked: u32,
    pub frozen: u32,
    pub week: u16,
    pub update_weeks: Vec<u32>,
    pub weekly_weights: Vec<u64>,
    pub weekly_unlocks: Vec<u32>,
}

/// Whether the bitfield marks week `k` as one in which locks run out.
pub open spec fn unlock_bit(update_weeks: Seq<u32>, k: int) -> bool {
    ((update_weeks[k / 32] >> ((k % 32) as u32)) & 1u32) == 1u32
}

/// The weight from week `aw` to week `week`: each week the weight falls by
/// what is still locked, and in a week that the bitfield marks, the locks
/// that run out are released; once nothing is locked the weight stays.
pub open spec fn decayed_weight(
    update_weeks: Seq<u32>,
    unlocks: Seq<u32>,
    aw: int,
    week: int,
    weight: int,
    locked: int,
) -> int
    decreases week - aw,
{
    if aw >= week {
        weight
    } else {
        let k = aw + 1;
        let w2 = weight - locked;
        if unlock_bit(update_weeks, k) {
            let l2 = locked - unlocks[k];
            if l2 == 0 { w2 } else { decayed_weight(update_weeks, unlocks, k, week, w2, l2) }
        } else {
            decayed_weight(update_weeks, unlocks, k, week, w2, locked)
        }
    }
}

/// The decay from week `aw` to `week` stays within the data: the weight
/// never falls below zero, every week read has its bitfield word, and no
/// release exceeds what is locked.
pub open spec fn decay_defined(
    update_weeks: Seq<u32>,
    unlocks: Seq<u32>,
    aw: int,
    week: int,
    weight: int,
    locked: int,
) -> bool
    decreases week - aw,
{
    if aw >= week {
        true
    } else {
        let k = aw + 1;
        let w2 = weight - locked;
        &&& weight >= locked
        &&& k / 32 < update_weeks.len()
        &&& if unlock_bit(update_weeks, k) {
            &&& k < unlocks.len()
            &&& locked >= unlocks[k]
            &&& (locked - unlocks[k] != 0 ==> decay_defined(update_weeks, unlocks, k, week, w2, locked - unlocks[k]))
        } else {
            decay_defined(update_weeks, unlocks, k, week, w2, locked)
        }
    }
}

/// Where the decay is defined, it never raises the weight.
proof fn lemma_decay_at_most(update_weeks: Seq<u32>, unlocks: Seq<u32>, aw: int, week: int, weight: int, locked: int)
    requires
        locked >= 0,
        decay_defined(update_weeks, unlocks, aw, week, weight, locked),
    ensures
        decayed_weight(update_weeks, unlocks, aw, week, weight, locked) <= weight,
    decreases week - aw,
{
    if aw < week {
        let k = aw + 1;
        if unlock_bit(update_weeks, k) {
            if locked - unlocks[k] != 0 {
                lemma_decay_at_most(update_weeks, unlocks, k, week, weight - locked, locked - unlocks[k]);
            }
        } else {
            lemma_decay_at_most(update_weeks, unlocks, k, week, weight - locked, locked);
        }
    }
}

/// An account's weight only decays: from the same last update, its weight
/// at a later week is at most its weight at an earlier week, wherever the
/// decay to the later week is defined.
pub proof fn lemma_weight_decays(
    update_weeks: Seq<u32>,
    unlocks: Seq<u32>,
    aw: int,
    earlier: int,
    later: int,
    weight: int,
    locked: int,
)
    requires
        aw <= earlier <= later,
        locked >= 0,
        decay_defined(update_weeks, unlocks, aw, later, weight, locked),
    ensures
        decayed_weight(update_weeks, unlocks, aw, later, weight, locked) <= decayed_weight(
            update_weeks,
            unlocks,
            aw,
            earlier,
            weight,
            locked,
        ),
    decreases earlier - aw,
{
    if aw >= earlier {
        lemma_decay_at_most(update_weeks, unlocks, aw, later, weight, locked);
    } else {
        let k = aw + 1;
        if unlock_bit(update_weeks, k) {
            if locked - unlocks[k] != 0 {
                lemma_weight_decays(update_weeks, unlocks, k, earlier, later, weight - locked, locked - unlocks[k]);
            }
        } else {
            lemma_weight_decays(update_weeks, unlocks, k, earlier, later, weight - locked, locked);
        }
    }
}

/// The weight of an account at `week`: the weight recorded at its last
/// update, decayed up to `week` unless nothing is locked or the account is
/// frozen.
pub open spec fn account_weight_at(d: AccountData, week: int) -> int {
    if d.locked == 0 || d.frozen > 0 {
        d.weekly_weights@[d.week as int] as int
    } else {
        decayed_weight(
            d.update_weeks@,
            d.weekly_unlocks@,
            d.week as int,
            week,
            d.weekly_weights@[d.week as int] as int,
            d.locked as int,
        )
    }
}

/// Reading the weight of an account at `week` stays within its data.
pub open spec fn account_weight_defined(d: AccountData, week: int) -> bool {
    &&& (d.week as int) < d.weekly_weights@.len()
    &&& (d.locked != 0 && d.frozen == 0) ==> {
        &&& (d.week as int) / 32 < d.update_weeks@.len()
        &&& decay_defined(
            d.update_weeks@,
            d.weekly_unlocks@,
            d.week as int,
            week,
            d.weekly_weights@[d.week as int] as int,
            d.locked as int,
        )
    }
}

/// An account's weight only decays: from its last update on, its weight at
/// a later week is at most its weight at an earlier week, wherever reading
/// the later week stays within its data; with nothing locked, or frozen,
/// it stays the same.
pub proof fn lemma_account_weight_decays(d: AccountData, earlier: int, later: int)
    requires
        d.week <= earlier <= later,
        account_weight_defined(d, later),
    ensures
        account_weight_at(d, later) <= account_weight_at(d, earlier),
        d.locked == 0 || d.frozen > 0 ==> account_weight_at(d, later) == account_weight_at(d, earlier),
{
    if !(d.locked == 0 || d.frozen > 0) {
        lemma_weight_decays(
            d.update_weeks@,
            d.weekly_unlocks@,
            d.week as int,
            earlier,
            later,
            d.weekly_weights@[d.week as int] as int,
            d.locked as int,
        );
    }
}

/// The total weight from week `updated` to `current`: each week it falls by
/// the decay rate, which then falls by that week's unlocks.
pub open spec fn decayed_total(weekly_unlocks: Seq<u32>, updated: int, current: int, weight: int, rate: int) -> int
    decreases current - updated,
{
    if updated >= current {
        weight
    } else {
        decayed_total(weekly_unlocks, updated + 1, current, weight - rate, rate - weekly_unlocks[updated + 1])
    }
}

pub open spec fn total_decay_defined(weekly_unlocks: Seq<u32>, updated: int, current: int, weight: int, rate: int) -> bool
    decreases current - updated,
{
    updated >= current || {
        &&& weight >= rate
        &&& updated + 1 < weekly_unlocks.len()
        &&& rate >= weekly_unlocks[updated + 1]
        &&& total_decay_defined(weekly_unlocks, updated + 1, current, weight - rate, rate - weekly_unlocks[updated + 1])
    }
}

proof fn lemma_shift_step(x: u32, s: u32)
    requires
        s < 31,
    ensures
        (x >> s) >> 1u32 == x >> ((s + 1) as u32),
{
    assert((x >> s) >> 1u32 == x >> ((s + 1) as u32)) by (bit_vector)
        requires
            s < 31,
    ;
}

/// The locker: the lock-to-token ratio, the total decay, each account's
/// locks, the system start and the owner.
pub struct TokenLocker {
    lock_to_token_ratio: u64,
    total_decay_rate: u32,
    total_updated_week: u16,
    total_weekly_weights: Vec<u64>,
    total_weekly_unlocks: Vec<u32>,
    account_data: PubkeyMap<AccountData>,
    system_start: SystemStart,
    babel_ownable: BabelOwnable,
    utxo_set: UtxoSet,
}

impl TokenLocker {
    pub closed spec fn well_formed(&self) -> bool {
        self.account_data.well_formed() && self.utxo_set.well_formed()
    }

    pub closed spec fn accounts(&self) -> Map<Seq<u8>, AccountData> {
        self.account_data.view()
    }

    /// The unspent outputs the locker keeps.
    pub closed spec fn utxo_view(&self) -> Map<(Seq<u8>, u32), (u64, Seq<u8>)> {
        self.utxo_set.view()
    }

    pub closed spec fn spec_lock_to_token_ratio(&self) -> u64 {
        self.lock_to_token_ratio
    }

    pub closed spec fn spec_total_updated_week(&self) -> u16 {
        self.total_updated_week
    }

    pub closed spec fn spec_total_decay_rate(&self) -> u32 {
        self.total_decay_rate
    }

    pub closed spec fn spec_total_weekly_weights(&self) -> Seq<u64> {
        self.total_weekly_weights@
    }

    pub closed spec fn spec_total_weekly_unlocks(&self) -> Seq<u32> {
        self.total_weekly_unlocks@
    }

    /// A locker with no locks and no total weight.
    pub fn new(lock_to_token_ratio: u64, system_start: SystemStart, babel_ownable: BabelOwnable) -> (r: Self)
        ensures
            r.well_formed(),
            r.accounts() == Map::<Seq<u8>, AccountData>::empty(),
            r.spec_lock_to_token_ratio() == lock_to_token_ratio,
            r.spec_total_updated_week() == 0,
            r.spec_total_decay_rate() == 0,
            r.spec_total_weekly_weights() == seq![0u64],
            r.spec_total_weekly_unlocks() == seq![0u32],
    {
        let mut total_weekly_weights: Vec<u64> = Vec::new();
        total_weekly_weights.push(0);
        let mut total_weekly_unlocks: Vec<u32> = Vec::new();
        total_weekly_unlocks.push(0);
        let r = TokenLocker {
            lock_to_token_ratio,
            total_decay_rate: 0,
            total_updated_week: 0,
            total_weekly_weights,
            total_weekly_unlocks,
            account_data: PubkeyMap::new(),
            system_start,
            babel_ownable,
            utxo_set: UtxoSet::new(),
        };
        assert(r.spec_total_weekly_weights() =~= seq![0u64]);
        assert(r.spec_total_weekly_unlocks() =~= seq![0u32]);
        r
    }

    /// The tokens that `amount` lock units stand for.
    pub fn tokens_for(&self, amount: u32) -> (r: u64)
        requires
            amount * self.spec_lock_to_token_ratio() <= u64::MAX,
        ensures
            r == amount * self.spec_lock_to_token_ratio(),
    {
        amount as u64 * self.lock_to_token_ratio
    }

    /// An account's (locked, unlocked) amounts; zero for an unknown account.
    pub fn get_account_balances(&self, account: &Pubkey) -> (r: (u32, u32))
        requires
            self.well_formed(),
        ensures
            r == if self.accounts().contains_key(account@) {
                (self.accounts()[account@].locked, self.accounts()[account@].unlocked)
            } else {
                (0u32, 0u32)
            },
    {
        match self.account_data.get(account) {
            Some(d) => (d.locked, d.unlocked),
            None => (0, 0),
        }
    }

    /// What `account` had locked; zero for an unknown account.
    pub open spec fn prior_locked(&self, account: Seq<u8>) -> int {
        if self.accounts().contains_key(account) { self.accounts()[account].locked as int } else { 0 }
    }

    /// Word `i` of `account`'s bitfield; zero beyond its end or for an unknown account.
    pub open spec fn prior_word(&self, account: Seq<u8>, i: int) -> u32 {
        if self.accounts().contains_key(account) && i < self.accounts()[account].update_weeks@.len() {
            self.accounts()[account].update_weeks@[i]
        } else {
            0
        }
    }

    /// Locks `amount` more for `account`, recording `weeks` as its week and
    /// marking that week in its bitfield. Gives the tokens the lock stands
    /// for, which move to the locker, and the request to sign the runtime's
    /// state transition `state_tx` by `account`.
    pub fn lock(&mut self, account: Pubkey, amount: u32, weeks: u16, state_tx: Transaction) -> (r: (
        u64,
        TransactionToSign,
    ))
        requires
            old(self).well_formed(),
            old(self).accounts().contains_key(account@) ==> old(self).accounts()[account@].locked + amount <= u32::MAX,
            amount * old(self).spec_lock_to_token_ratio() <= u64::MAX,
        ensures
            final(self).well_formed(),
            r.0 == amount * old(self).spec_lock_to_token_ratio(),
            signs_state_transition(r.1, state_tx, account),
            final(self).spec_lock_to_token_ratio() == old(self).spec_lock_to_token_ratio(),
            final(self).accounts().contains_key(account@),
            final(self).accounts()[account@].locked == old(self).prior_locked(account@) + amount,
            final(self).accounts()[account@].week == weeks,
            final(self).accounts()[account@].update_weeks@.len() > weeks,
            final(self).accounts()[account@].update_weeks@[weeks as int] == old(self).prior_word(account@, weeks as int)
                | (1u32 << ((weeks % 32) as u32)),
            forall|i: int|
                0 <= i < final(self).accounts()[account@].update_weeks@.len() && i != weeks
                    ==> #[trigger] final(self).accounts()[account@].update_weeks@[i] == old(self).prior_word(account@, i),
            forall|k: Seq<u8>|
                #![trigger final(self).accounts().contains_key(k)]
                #![trigger old(self).accounts().contains_key(k)]
                #![trigger final(self).accounts()[k]]
                k != account@ ==> final(self).accounts().contains_key(k) == old(self).accounts().contains_key(k)
                    && (old(self).accounts().contains_key(k) ==> final(self).accounts()[k] == old(self).accounts()[k]),
    {
        let mut data = match self.account_data.remove(&account) {
            Some(d) => d,
            None => AccountData {
                locked: 0,
                unlocked: 0,
                frozen: 0,
                week: 0,
                update_weeks: Vec::new(),
                weekly_weights: Vec::new(),
                weekly_unlocks: Vec::new(),
            },
        };
        let ghost before_weeks = data.update_weeks@;
        data.locked = data.locked + amount;
        data.week = weeks;
        let w = weeks as usize;
        let ghost locked_now = data.locked;
        while data.update_weeks.len() <= w
            invariant
                data.locked == locked_now,
                data.week == weeks,
                data.update_weeks@.len() >= before_weeks.len(),
                forall|i: int| 0 <= i < data.update_weeks@.len() ==> data.update_weeks@[i] == if i < before_weeks.len() {
                    before_weeks[i]
                } else {
                    0
                },
            decreases w + 1 - data.update_weeks@.len(),
        {
            data.update_weeks.push(0);
        }
        let bit: u32 = 1u32 << ((weeks % 32) as u32);
        let word = data.update_weeks[w] | bit;
        data.update_weeks.set(w, word);
        let ghost stored = data;
        self.account_data.insert(account, data);
        assert(self.accounts()[account@] == stored);
        assert(stored.update_weeks@[weeks as int] == (if (weeks as int) < before_weeks.len() { before_weeks[weeks as int] } else { 0 }) | (1u32 << ((weeks % 32) as u32)));
        let tokens = self.tokens_for(amount);
        (tokens, state_transition_request(&state_tx, account))
    }

    /// Moves everything `account` has locked to unlocked and clears the mark
    /// of its week in its bitfield; nothing happens for an unknown account.
    pub fn unlock(&mut self, account: &Pubkey)
        requires
            old(self).well_formed(),
            old(self).accounts().contains_key(account@) ==> {
                let d = old(self).accounts()[account@];
                &&& d.unlocked + d.locked <= u32::MAX
                &&& d.week < d.update_weeks@.len()
            },
        ensures
            final(self).well_formed(),
            old(self).accounts().contains_key(account@) ==> {
                let d = old(self).accounts()[account@];
                let after = final(self).accounts()[account@];
                &&& final(self).accounts().contains_key(account@)
                &&& after.unlocked == d.unlocked + d.locked
                &&& after.locked == 0
                &&& after.update_weeks@ == d.update_weeks@.update(
                    d.week as int,
                    d.update_weeks@[d.week as int] & !(1u32 << ((d.week % 32) as u32)),
                )
                &&& after.week == d.week
                &&& after.frozen == d.frozen
            },
            !old(self).accounts().contains_key(account@) ==> final(self).accounts() == old(self).accounts(),
            forall|k: Seq<u8>|
                #![trigger final(self).accounts().contains_key(k)]
                #![trigger old(self).accounts().contains_key(k)]
                #![trigger final(self).accounts()[k]]
                k != account@ ==> final(self).accounts().contains_key(k) == old(self).accounts().contains_key(k)
                    && (old(self).accounts().contains_key(k) ==> final(self).accounts()[k] == old(self).accounts()[k]),
    {
        match self.account_data.remove(account) {
            Some(mut data) => {
                data.unlocked = data.unlocked + data.locked;
                data.locked = 0;
                let w = data.week as usize;
                let mask: u32 = !(1u32 << ((data.week % 32) as u32));
                let word = data.update_weeks[w] & mask;
                data.update_weeks.set(w, word);
                self.account_data.insert(*account, data);
            },
            None => {
                assert(self.accounts() =~= old(self).accounts());
            },
        }
    }

    /// The weight of `account` at `week`, zero for a week after `current_week`:
    /// from the weight recorded at its last update, the weight decays week by
    /// week by what is still locked, releasing the locks that run out.
    pub fn calculate_weight_at(&self, account: &Pubkey, week: u16, current_week: u16) -> (r: u64)
        requires
            self.well_formed(),
            week <= current_week ==> self.accounts().contains_key(account@),
            week <= current_week ==> account_weight_defined(self.accounts()[account@], week as int),
        ensures
            week > current_week ==> r == 0,
            week <= current_week ==> r == account_weight_at(self.accounts()[account@], week as int),
    {
        if week > current_week {
            return 0;
        }
        let account_data = match self.account_data.get(account) {
            Some(d) => d,
            None => {
                return 0;
            },
        };
        let mut account_week: u16 = account_data.week;
        let mut weight: u64 = account_data.weekly_weights[account_week as usize];
        let mut locked: u64 = account_data.locked as u64;

        if locked == 0 || account_data.frozen > 0 {
            return weight;
        }

        let ghost uw = account_data.update_weeks@;
        let ghost un = account_data.weekly_unlocks@;
        let ghost goal = decayed_weight(uw, un, account_week as int, week as int, weight as int, locked as int);
        let mut bitfield: u32 = account_data.update_weeks[account_week as usize / 32] >> ((account_week % 32) as u32);
        while account_week < week
            invariant_except_break
                uw == account_data.update_weeks@,
                un == account_data.weekly_unlocks@,
                (account_week as int) / 32 < uw.len(),
                bitfield == uw[(account_week as int) / 32] >> ((account_week % 32) as u32),
                decay_defined(uw, un, account_week as int, week as int, weight as int, locked as int),
                decayed_weight(uw, un, account_week as int, week as int, weight as int, locked as int) == goal,
            ensures
                weight == goal,
            decreases week - account_week,
        {
            account_week = account_week + 1;
            weight = weight - locked;
            if account_week % 32 == 0 {
                bitfield = account_data.update_weeks[account_week as usize / 32];
                assert(bitfield == bitfield >> 0u32) by (bit_vector);
            } else {
                proof {
                    let prev = (account_week - 1) as int;
                    assert(prev / 32 == (account_week as int) / 32);
                    assert((prev % 32) + 1 == (account_week as int) % 32);
                    lemma_shift_step(uw[prev / 32], (prev % 32) as u32);
                }
                bitfield = bitfield >> 1u32;
            }
            if bitfield & 1 == 1 {
                let amount = account_data.weekly_unlocks[account_week as usize];
                locked = locked - amount as u64;
                if locked == 0 {
                    break;
                }
            }
        }
        weight
    }

    /// The total weight at the current week, zero for a week after it: from
    /// the weight at the last total update, each week takes away the decay
    /// rate, which falls by that week's unlocks.
    pub fn get_total_weight_at(&self, week: u16, current_week: u16) -> (r: u64)
        requires
            week <= current_week ==> {
                &&& (self.spec_total_updated_week() as int) < self.spec_total_weekly_weights().len()
                &&& total_decay_defined(
                    self.spec_total_weekly_unlocks(),
                    self.spec_total_updated_week() as int,
                    current_week as int,
                    self.spec_total_weekly_weights()[self.spec_total_updated_week() as int] as int,
                    self.spec_total_decay_rate() as int,
                )
            },
        ensures
            week > current_week ==> r == 0,
            week <= current_week ==> r == decayed_total(
                self.spec_total_weekly_unlocks(),
                self.spec_total_updated_week() as int,
                current_week as int,
                self.spec_total_weekly_weights()[self.spec_total_updated_week() as int] as int,
                self.spec_total_decay_rate() as int,
            ),
    {
        if week > current_week {
            return 0;
        }
        let mut updated_week: u16 = self.total_updated_week;
        let mut weight: u64 = self.total_weekly_weights[updated_week as usize];
        let mut rate: u64 = self.total_decay_rate as u64;
        let ghost goal = decayed_total(self.total_weekly_unlocks@, updated_week as int, current_week as int, weight as int, rate as int);

        while updated_week < current_week
            invariant
                total_decay_defined(self.total_weekly_unlocks@, updated_week as int, current_week as int, weight as int, rate as int),
                decayed_total(self.total_weekly_unlocks@, updated_week as int, current_week as int, weight as int, rate as int) == goal,
            decreases current_week - updated_week,
        {
            updated_week = updated_week + 1;
            weight = weight - rate;
            rate = rate - self.total_weekly_unlocks[updated_week as usize] as u64;
        }
        weight
    }

    /// Succeeds when output `vout` of the transaction with id `txid` is
    /// unspent in the locker's set, else fails with code 502.
    pub fn validate_utxo(&self, txid: [u8; 32], vout: u32) -> (r: Result<(), ProgramError>)
        requires
            self.well_formed(),
        ensures
            r is Ok <==> self.utxo_view().contains_key((txid@, vout)),
            r matches Err(e) ==> e == ProgramError::Custom(502),
    {
        if self.utxo_set.contains(&OutPoint::new(txid, vout)) {
            Ok(())
        } else {
            Err(ProgramError::Custom(502))
        }
    }
}

} // verus!
