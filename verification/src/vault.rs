//! The vault of the protocol's token: the unallocated supply, weekly
//! emissions, receivers of emissions, boost delegation, and the pending
//! rewards that are paid out or locked.
use crate::ownable::BabelOwnable;
use crate::system_start::SystemStart;
use crate::types::Table;
use vstd::prelude::*;

verus! {

/// The weeks that a weekly emission is locked for.
pub const EMISSION_LOCK_WEEKS: u64 = 52;

/// The emission each week gets.
pub const WEEKLY_EMISSIONS: u128 = 1000;

/// The base reward an account can claim from a reward contract.
pub const BASE_REWARD: u128 = 1000;

/// The boost every account has, in percent.
pub const BASE_BOOST: u128 = 100;

/// A receiver of emissions: its account and whether it is active.
#[derive(Debug)]
pub struct Receiver {
    pub account: String,
    pub is_active: bool,
}

/// An account's boost delegation: whether it is on, the fee it takes in
/// percent, and the contract it calls back.
#[derive(Debug)]
pub struct BoostDelegation {
    pub is_enabled: bool,
    pub fee_pct: u16,
    pub callback: Option<String>,
}

/// A movement of tokens the vault asks of the token contracts.
#[derive(Debug)]
pub enum TokenMove {
    /// Pay `amount` tokens to `receiver`.
    Transfer { receiver: String, amount: u128 },
    /// Lock `amount` lock units with the token locker for `weeks` weeks.
    Lock { amount: u128, weeks: u64 },
}

/// The vault's state.
pub struct Vault {
    babel_token: String,
    emission_schedule: String,
    token_locker: String,
    boost_calculator: String,
    incentive_voting: String,
    babel_ownable: BabelOwnable,
    system_start: SystemStart,
    unallocated_total: u128,
    weekly_emissions: Table<u64, u128>,
    allocated: Table<String, u128>,
    receivers: Table<u64, Receiver>,
    boost_delegation: Table<String, BoostDelegation>,
    stored_pending_reward: Table<String, u128>,
    lock_to_token_ratio: u128,
    lock_weeks: u64,
}

/// A token movement as plain values: `(true, receiver, amount, 0)` for a
/// transfer and `(false, empty, amount, weeks)` for a lock.
pub open spec fn move_view(m: TokenMove) -> (bool, Seq<char>, u128, u64) {
    match m {
        TokenMove::Transfer { receiver, amount } => (true, receiver@, amount, 0),
        TokenMove::Lock { amount, weeks } => (false, Seq::empty(), amount, weeks),
    }
}

/// What paying out `amount` to `receiver` does: with no lock period a
/// transfer and no pending reward change; else the whole lock units are
/// locked (when there are any) and the rest stays pending.
pub open spec fn payout(amount: u128, receiver: Seq<char>, ratio: u128, lock_weeks: u64) -> (Option<int>, Option<(bool, Seq<char>, u128, u64)>) {
    if lock_weeks == 0 {
        (None, Some((true, receiver, amount, 0)))
    } else {
        let units = amount / ratio;
        (
            Some(amount - units * ratio),
            if units > 0 { Some((false, Seq::empty(), units as u128, lock_weeks)) } else { None },
        )
    }
}

/// The pending reward of `claimant`, zero when none is stored.
pub open spec fn pending_of(m: Map<Seq<char>, u128>, claimant: Seq<char>) -> int {
    if m.contains_key(claimant) { m[claimant] as int } else { 0 }
}

/// Whether claiming pays out: the pending reward reaches the ratio.
pub open spec fn claim_pays(pending: int, ratio: u128) -> bool {
    pending >= ratio
}

/// The boost of an account in percent: the base boost plus the fee of an
/// enabled delegation.
pub open spec fn boost_factor(delegations: Map<Seq<char>, BoostDelegation>, account: Seq<char>) -> int {
    BASE_BOOST + if delegations.contains_key(account) && delegations[account].is_enabled {
        delegations[account].fee_pct as int
    } else {
        0
    }
}

/// Whether some id in `ids` names an active receiver.
pub open spec fn has_active(receivers: Map<u64, Receiver>, ids: Seq<u64>) -> bool {
    exists|i: int| 0 <= i < ids.len() && receivers.contains_key(#[trigger] ids[i]) && receivers[ids[i]].is_active
}


/// The number of active receivers among `ids`.
pub open spec fn active_count(receivers: Map<u64, Receiver>, ids: Seq<u64>) -> int
    decreases ids.len(),
{
    if ids.len() == 0 {
        0
    } else {
        active_count(receivers, ids.drop_last()) + if receivers.contains_key(ids.last()) && receivers[ids.last()].is_active {
            1int
        } else {
            0
        }
    }
}

/// Whether an active receiver among `ids` has account `a`.
pub open spec fn active_account(receivers: Map<u64, Receiver>, ids: Seq<u64>, a: Seq<char>) -> bool {
    exists|i: int|
        0 <= i < ids.len() && receivers.contains_key(#[trigger] ids[i]) && receivers[ids[i]].is_active
            && receivers[ids[i]].account@ == a
}

proof fn lemma_active_count_bound(receivers: Map<u64, Receiver>, ids: Seq<u64>)
    ensures
        0 <= active_count(receivers, ids) <= ids.len(),
    decreases ids.len(),
{
    if ids.len() > 0 {
        lemma_active_count_bound(receivers, ids.drop_last());
    }
}

impl Vault {
    pub closed spec fn well_formed(&self) -> bool {
        &&& self.weekly_emissions.well_formed()
        &&& self.allocated.well_formed()
        &&& self.receivers.well_formed()
        &&& self.boost_delegation.well_formed()
        &&& self.stored_pending_reward.well_formed()
    }

    pub closed spec fn spec_unallocated(&self) -> u128 {
        self.unallocated_total
    }

    pub closed spec fn spec_weekly_emissions(&self) -> Map<u64, u128> {
        self.weekly_emissions.view()
    }

    pub closed spec fn spec_allocated(&self) -> Map<Seq<char>, u128> {
        self.allocated.view()
    }

    pub closed spec fn spec_receivers(&self) -> Map<u64, Receiver> {
        self.receivers.view()
    }

    pub closed spec fn spec_delegations(&self) -> Map<Seq<char>, BoostDelegation> {
        self.boost_delegation.view()
    }

    pub closed spec fn spec_pending(&self) -> Map<Seq<char>, u128> {
        self.stored_pending_reward.view()
    }

    /// The receiver ids in the order they were first registered.
    pub closed spec fn receiver_ids(&self) -> Seq<u64> {
        self.receivers.key_seq()
    }

    pub closed spec fn spec_ratio(&self) -> u128 {
        self.lock_to_token_ratio
    }

    pub closed spec fn spec_lock_weeks(&self) -> u64 {
        self.lock_weeks
    }

    pub closed spec fn spec_contracts(&self) -> Seq<Seq<char>> {
        seq![self.babel_token@, self.emission_schedule@, self.token_locker@, self.boost_calculator@, self.incentive_voting@]
    }

    /// A vault with nothing unallocated, no emissions, allocations,
    /// receivers, delegations or pending rewards.
    pub fn new(
        babel_token: String,
        emission_schedule: String,
        token_locker: String,
        boost_calculator: String,
        incentive_voting: String,
        babel_ownable: BabelOwnable,
        system_start: SystemStart,
        lock_to_token_ratio: u128,
        lock_weeks: u64,
    ) -> (r: Self)
        ensures
            r.well_formed(),
            r.spec_unallocated() == 0,
            r.spec_weekly_emissions() == Map::<u64, u128>::empty(),
            r.spec_allocated() == Map::<Seq<char>, u128>::empty(),
            r.spec_receivers() == Map::<u64, Receiver>::empty(),
            r.spec_delegations() == Map::<Seq<char>, BoostDelegation>::empty(),
            r.spec_pending() == Map::<Seq<char>, u128>::empty(),
            r.spec_ratio() == lock_to_token_ratio,
            r.spec_lock_weeks() == lock_weeks,
            r.spec_contracts() == seq![babel_token@, emission_schedule@, token_locker@, boost_calculator@, incentive_voting@],
    {
        Vault {
            babel_token,
            emission_schedule,
            token_locker,
            boost_calculator,
            incentive_voting,
            babel_ownable,
            system_start,
            unallocated_total: 0,
            weekly_emissions: Table::new(),
            allocated: Table::new(),
            receivers: Table::new(),
            boost_delegation: Table::new(),
            stored_pending_reward: Table::new(),
            lock_to_token_ratio,
            lock_weeks,
        }
    }

    /// The emissions of `week`.
    pub fn get_total_weekly_emissions(&self, week: u64) -> (r: u128)
        ensures
            r == WEEKLY_EMISSIONS,
    {
        WEEKLY_EMISSIONS
    }

    /// Records `week`'s emissions, taken from the unallocated supply, and
    /// asks to lock `amount` for a year.
    pub fn set_weekly_emission(&mut self, week: u64, amount: u128) -> (r: TokenMove)
        requires
            old(self).well_formed(),
            old(self).spec_unallocated() >= WEEKLY_EMISSIONS,
        ensures
            final(self).well_formed(),
            final(self).spec_weekly_emissions() == old(self).spec_weekly_emissions().insert(week, WEEKLY_EMISSIONS),
            final(self).spec_unallocated() == old(self).spec_unallocated() - WEEKLY_EMISSIONS,
            move_view(r) == (false, Seq::<char>::empty(), amount, EMISSION_LOCK_WEEKS),
            final(self).spec_allocated() == old(self).spec_allocated(),
            final(self).spec_receivers() == old(self).spec_receivers(),
            final(self).spec_pending() == old(self).spec_pending(),
    {
        let total_emissions = self.get_total_weekly_emissions(week);
        self.weekly_emissions.insert(week, total_emissions);
        self.unallocated_total = self.unallocated_total - total_emissions;
        TokenMove::Lock { amount, weeks: EMISSION_LOCK_WEEKS }
    }

    /// Pays `amount` of the unallocated supply to `receiver`.
    pub fn transfer_tokens(&mut self, receiver: String, amount: u128) -> (r: TokenMove)
        requires
            old(self).well_formed(),
            old(self).spec_unallocated() >= amount,
        ensures
            final(self).well_formed(),
            final(self).spec_unallocated() == old(self).spec_unallocated() - amount,
            move_view(r) == (true, receiver@, amount, 0u64),
            final(self).spec_weekly_emissions() == old(self).spec_weekly_emissions(),
            final(self).spec_allocated() == old(self).spec_allocated(),
            final(self).spec_pending() == old(self).spec_pending(),
    {
        self.unallocated_total = self.unallocated_total - amount;
        TokenMove::Transfer { receiver, amount }
    }

    /// Adds `amount` to the unallocated supply.
    pub fn increase_unallocated_supply(&mut self, amount: u128)
        requires
            old(self).well_formed(),
            old(self).spec_unallocated() + amount <= u128::MAX,
        ensures
            final(self).well_formed(),
            final(self).spec_unallocated() == old(self).spec_unallocated() + amount,
            final(self).spec_weekly_emissions() == old(self).spec_weekly_emissions(),
            final(self).spec_allocated() == old(self).spec_allocated(),
            final(self).spec_pending() == old(self).spec_pending(),
    {
        self.unallocated_total = self.unallocated_total + amount;
    }

    /// Registers `account` as the active receiver with id `id`.
    pub fn register_receiver(&mut self, id: u64, account: String) -> (r: bool)
        requires
            old(self).well_formed(),
        ensures
            final(self).well_formed(),
            r,
            final(self).spec_receivers().dom() == old(self).spec_receivers().dom().insert(id),
            final(self).spec_receivers()[id].account@ == account@,
            final(self).spec_receivers()[id].is_active,
            forall|k: u64| k != id && old(self).spec_receivers().contains_key(k) ==> #[trigger] final(self).spec_receivers()[k]
                == old(self).spec_receivers()[k],
            final(self).spec_unallocated() == old(self).spec_unallocated(),
            final(self).spec_pending() == old(self).spec_pending(),
    {
        self.receivers.insert(id, Receiver { account, is_active: true });
        true
    }

    /// Sets whether receiver `id` is active; `false` when there is no such
    /// receiver.
    pub fn set_receiver_is_active(&mut self, id: u64, is_active: bool) -> (r: bool)
        requires
            old(self).well_formed(),
        ensures
            final(self).well_formed(),
            r == old(self).spec_receivers().contains_key(id),
            final(self).spec_receivers().dom() == old(self).spec_receivers().dom(),
            r ==> final(self).spec_receivers()[id].is_active == is_active
                && final(self).spec_receivers()[id].account == old(self).spec_receivers()[id].account,
            forall|k: u64| k != id && old(self).spec_receivers().contains_key(k) ==> #[trigger] final(self).spec_receivers()[k]
                == old(self).spec_receivers()[k],
            final(self).spec_unallocated() == old(self).spec_unallocated(),
            final(self).spec_pending() == old(self).spec_pending(),
    {
        match self.receivers.remove(&id) {
            Some(receiver) => {
                self.receivers.insert(id, Receiver { account: receiver.account, is_active });
                assert(self.spec_receivers().dom() =~= old(self).spec_receivers().dom());
                true
            },
            None => false,
        }
    }

    /// Sets `sender`'s boost delegation.
    pub fn set_boost_delegation_params(&mut self, sender: String, is_enabled: bool, fee_pct: u16, callback: Option<String>) -> (r: bool)
        requires
            old(self).well_formed(),
        ensures
            final(self).well_formed(),
            r,
            final(self).spec_delegations() == old(self).spec_delegations().insert(
                sender@,
                BoostDelegation { is_enabled, fee_pct, callback },
            ),
            final(self).spec_unallocated() == old(self).spec_unallocated(),
            final(self).spec_pending() == old(self).spec_pending(),
            final(self).spec_receivers() == old(self).spec_receivers(),
    {
        self.boost_delegation.insert(sender, BoostDelegation { is_enabled, fee_pct, callback });
        true
    }

    /// Pays out `amount` to `receiver`: transfers it when nothing is locked,
    /// else locks its whole lock units and keeps the rest pending.
    pub fn transfer_or_lock(&mut self, amount: u128, receiver: String) -> (r: Option<TokenMove>)
        requires
            old(self).well_formed(),
            old(self).spec_lock_weeks() != 0 ==> old(self).spec_ratio() > 0,
        ensures
            final(self).well_formed(),
            ({
                let (pending, mv) = payout(amount, receiver@, old(self).spec_ratio(), old(self).spec_lock_weeks());
                &&& final(self).spec_pending() == (match pending {
                    Some(p) => old(self).spec_pending().insert(receiver@, p as u128),
                    None => old(self).spec_pending(),
                })
                &&& mv matches Some(m) ==> (r matches Some(x) && move_view(x) == m)
                &&& mv is None ==> r is None
            }),
            final(self).spec_unallocated() == old(self).spec_unallocated(),
            final(self).spec_receivers() == old(self).spec_receivers(),
            final(self).spec_delegations() == old(self).spec_delegations(),
            final(self).spec_ratio() == old(self).spec_ratio(),
            final(self).spec_lock_weeks() == old(self).spec_lock_weeks(),
    {
        if self.lock_weeks == 0 {
            return Some(TokenMove::Transfer { receiver, amount });
        }
        let lock_amount = amount / self.lock_to_token_ratio;
        assert(lock_amount * self.lock_to_token_ratio <= amount) by (nonlinear_arith)
            requires
                lock_amount == amount / self.lock_to_token_ratio,
                self.lock_to_token_ratio > 0,
        ;
        let rest = amount - lock_amount * self.lock_to_token_ratio;
        self.stored_pending_reward.insert(receiver, rest);
        if lock_amount > 0 {
            Some(TokenMove::Lock { amount: lock_amount, weeks: self.lock_weeks })
        } else {
            None
        }
    }

    /// Claims `claimant`'s pending reward once it reaches the lock ratio:
    /// clears it and pays it out; returns the amount claimed (zero when
    /// nothing is claimed) and the movement of tokens the payout asks for.
    pub fn claim_boost_delegation_fees(&mut self, claimant: String) -> (r: (u128, Option<TokenMove>))
        requires
            old(self).well_formed(),
            old(self).spec_lock_weeks() != 0 ==> old(self).spec_ratio() > 0,
        ensures
            final(self).well_formed(),
            ({
                let amount = pending_of(old(self).spec_pending(), claimant@);
                let (pending, mv) = payout(amount as u128, claimant@, old(self).spec_ratio(), old(self).spec_lock_weeks());
                &&& claim_pays(amount, old(self).spec_ratio()) ==> {
                    &&& r.0 == amount
                    &&& final(self).spec_pending() == old(self).spec_pending().insert(
                        claimant@,
                        match pending {
                            Some(p) => p as u128,
                            None => 0u128,
                        },
                    )
                    &&& mv matches Some(m) ==> (r.1 matches Some(x) && move_view(x) == m)
                    &&& mv is None ==> r.1 is None
                }
                &&& !claim_pays(amount, old(self).spec_ratio()) ==> r.0 == 0 && r.1 is None
                    && final(self).spec_pending() == old(self).spec_pending()
            }),
            final(self).spec_unallocated() == old(self).spec_unallocated(),
            final(self).spec_receivers() == old(self).spec_receivers(),
            final(self).spec_delegations() == old(self).spec_delegations(),
            final(self).spec_ratio() == old(self).spec_ratio(),
            final(self).spec_lock_weeks() == old(self).spec_lock_weeks(),
    {
        let amount = match self.stored_pending_reward.get(&claimant) {
            Some(a) => *a,
            None => 0,
        };
        if amount >= self.lock_to_token_ratio {
            self.stored_pending_reward.insert(claimant.clone(), 0);
            let mv = self.transfer_or_lock(amount, claimant);
            proof {
                let ghost c = claimant@;
                assert(self.spec_pending() =~= old(self).spec_pending().insert(
                    c,
                    match payout(amount, c, old(self).spec_ratio(), old(self).spec_lock_weeks()).0 {
                        Some(p) => p as u128,
                        None => 0u128,
                    },
                ));
            }
            (amount, mv)
        } else {
            (0, None)
        }
    }

    /// Claims `claimant`'s pending reward for each active receiver among
    /// `rewards`; returns whether anything was claimed, and the movements of
    /// tokens the payouts ask for.
    pub fn batch_claim_rewards(&mut self, claimant: String, rewards: Vec<u64>) -> (r: (bool, Vec<TokenMove>))
        requires
            old(self).well_formed(),
            old(self).spec_lock_weeks() != 0 ==> old(self).spec_ratio() > 0,
        ensures
            final(self).well_formed(),
            ({
                let amount = pending_of(old(self).spec_pending(), claimant@);
                r.0 == (has_active(old(self).spec_receivers(), rewards@) && claim_pays(amount, old(self).spec_ratio())
                    && amount > 0)
            }),
            final(self).spec_unallocated() == old(self).spec_unallocated(),
            final(self).spec_receivers() == old(self).spec_receivers(),
            final(self).spec_delegations() == old(self).spec_delegations(),
            forall|k: Seq<char>| k != claimant@ ==> pending_of(final(self).spec_pending(), k) == pending_of(old(self).spec_pending(), k),
    {
        let ghost amount0 = pending_of(old(self).spec_pending(), claimant@);
        let ghost ratio = self.lock_to_token_ratio;
        let mut total_claimed: u128 = 0;
        let mut moves: Vec<TokenMove> = Vec::new();
        let mut i: usize = 0;
        while i < rewards.len()
            invariant
                self.well_formed(),
                i <= rewards@.len(),
                ratio == self.spec_ratio(),
                self.spec_ratio() == old(self).spec_ratio(),
                self.spec_lock_weeks() == old(self).spec_lock_weeks(),
                self.spec_lock_weeks() != 0 ==> self.spec_ratio() > 0,
                self.spec_unallocated() == old(self).spec_unallocated(),
                self.spec_receivers() == old(self).spec_receivers(),
                self.spec_delegations() == old(self).spec_delegations(),
                forall|k: Seq<char>| k != claimant@ ==> pending_of(self.spec_pending(), k) == pending_of(old(self).spec_pending(), k),
                amount0 == pending_of(old(self).spec_pending(), claimant@),
                !has_active(self.spec_receivers(), rewards@.subrange(0, i as int)) ==> total_claimed == 0
                    && pending_of(self.spec_pending(), claimant@) == amount0,
                has_active(self.spec_receivers(), rewards@.subrange(0, i as int)) ==> {
                    &&& total_claimed == (if claim_pays(amount0, ratio) { amount0 } else { 0 })
                    &&& claim_pays(amount0, ratio) ==> (pending_of(self.spec_pending(), claimant@) < ratio
                        || pending_of(self.spec_pending(), claimant@) == 0 && ratio == 0)
                    &&& !claim_pays(amount0, ratio) ==> pending_of(self.spec_pending(), claimant@) == amount0
                },
            decreases rewards@.len() - i,
        {
            let id = rewards[i];
            let active = match self.receivers.get(&id) {
                Some(receiver) => receiver.is_active,
                None => false,
            };
            let ghost prefix = rewards@.subrange(0, i as int);
            let ghost next = rewards@.subrange(0, i + 1);
            proof {
                assert forall|j: int| 0 <= j < prefix.len() implies next[j] == prefix[j] by {}
                if has_active(self.spec_receivers(), prefix) {
                    let j = choose|j: int| 0 <= j < prefix.len() && self.spec_receivers().contains_key(#[trigger] prefix[j])
                        && self.spec_receivers()[prefix[j]].is_active;
                    assert(next[j] == prefix[j]);
                }
            }
            if active {
                proof {
                    assert(next[i as int] == id);
                    assert(has_active(self.spec_receivers(), next));
                }
                let ghost before = pending_of(self.spec_pending(), claimant@);
                let (claimed, mv) = self.claim_boost_delegation_fees(claimant.clone());
                proof {
                    if has_active(old(self).spec_receivers(), prefix) {
                        if claim_pays(amount0, ratio) {
                            if ratio > 0 {
                                assert(claimed == 0);
                            } else {
                                assert(before == 0);
                            }
                        } else {
                            assert(claimed == 0);
                        }
                    } else {
                        assert(before == amount0);
                        if claim_pays(amount0, ratio) && self.spec_lock_weeks() != 0 {
                            let units = amount0 / (ratio as int);
                            assert(0 <= amount0 - units * ratio < ratio) by (nonlinear_arith)
                                requires
                                    ratio > 0,
                                    amount0 >= 0,
                                    units == amount0 / (ratio as int),
                            ;
                            assert(units == (amount0 as u128) / ratio);
                        }
                    }
                }
                total_claimed = total_claimed + claimed;
                match mv {
                    Some(m) => moves.push(m),
                    None => {},
                }

            } else {
                proof {
                    if has_active(self.spec_receivers(), next) {
                        let j = choose|j: int| 0 <= j < next.len() && self.spec_receivers().contains_key(#[trigger] next[j])
                            && self.spec_receivers()[next[j]].is_active;
                        assert(j != i as int);
                        assert(prefix[j] == next[j]);
                    }
                }
            }
            i = i + 1;
        }
        assert(rewards@.subrange(0, rewards@.len() as int) =~= rewards@);
        (total_claimed > 0, moves)
    }

    /// The boost of `account` in percent.
    pub fn get_boost_factor(&self, account: &String) -> (r: u128)
        requires
            self.well_formed(),
        ensures
            r == boost_factor(self.spec_delegations(), account@),
    {
        let additional_boost: u128 = match self.boost_delegation.get(account) {
            Some(delegation) => if delegation.is_enabled { delegation.fee_pct as u128 } else { 0 },
            None => 0,
        };
        BASE_BOOST + additional_boost
    }

    /// `account`'s base reward from `reward_contract` and that reward
    /// boosted by its boost factor.
    pub fn claimable_reward_after_boost(&self, account: &String, reward_contract: &String) -> (r: (u128, u128))
        requires
            self.well_formed(),
        ensures
            r.0 == BASE_REWARD,
            r.1 == BASE_REWARD * boost_factor(self.spec_delegations(), account@) / 100,
    {
        let base_reward = BASE_REWARD;
        let boost_factor = self.get_boost_factor(account);
        (base_reward, base_reward * boost_factor / 100)
    }

    /// Shares `current_week`'s emissions equally among the receivers: each
    /// active receiver's account is allocated the emissions divided by the
    /// number of receivers, and what was allocated leaves the unallocated
    /// supply (which stops at zero).
    pub fn allocate_total_weekly(&mut self, current_week: u64)
        requires
            old(self).well_formed(),
        ensures
            final(self).well_formed(),
            ({
                let total = if old(self).spec_weekly_emissions().contains_key(current_week) {
                    old(self).spec_weekly_emissions()[current_week] as int
                } else {
                    0
                };
                let ids = old(self).receiver_ids();
                let n = ids.len() as int;
                let share = if n > 0 { total / n } else { 0 };
                let allocated = active_count(old(self).spec_receivers(), ids) * share;
                &&& forall|a: Seq<char>| #[trigger] final(self).spec_allocated().contains_key(a) <==> (
                    old(self).spec_allocated().contains_key(a) || active_account(old(self).spec_receivers(), ids, a))
                &&& forall|a: Seq<char>| #[trigger] final(self).spec_allocated().contains_key(a) ==> final(self).spec_allocated()[a]
                    == if active_account(old(self).spec_receivers(), ids, a) { share } else { old(self).spec_allocated()[a] as int }
                &&& final(self).spec_unallocated() == if old(self).spec_unallocated() >= allocated {
                    old(self).spec_unallocated() - allocated
                } else {
                    0
                }
            }),
            final(self).spec_receivers() == old(self).spec_receivers(),
            final(self).spec_weekly_emissions() == old(self).spec_weekly_emissions(),
            final(self).spec_pending() == old(self).spec_pending(),
            final(self).spec_delegations() == old(self).spec_delegations(),
    {
        let total_emissions: u128 = match self.weekly_emissions.get(&current_week) {
            Some(t) => *t,
            None => 0,
        };
        let n = self.receivers.len();
        let ghost ids = self.receivers.key_seq();
        let ghost share: int = if n > 0 { total_emissions as int / n as int } else { 0 };
        let mut total_allocated: u128 = 0;
        let mut i: usize = 0;
        while i < n
            invariant
                self.well_formed(),
                n == ids.len(),
                ids == self.receivers.key_seq(),
                i <= n,
                share == (if n > 0 { total_emissions as int / n as int } else { 0 }),
                total_allocated == active_count(old(self).spec_receivers(), ids.subrange(0, i as int)) * share,
                self.spec_receivers() == old(self).spec_receivers(),
                self.spec_weekly_emissions() == old(self).spec_weekly_emissions(),
                self.spec_pending() == old(self).spec_pending(),
                self.spec_delegations() == old(self).spec_delegations(),
                self.spec_unallocated() == old(self).spec_unallocated(),
                forall|a: Seq<char>| #[trigger] self.spec_allocated().contains_key(a) <==> (
                    old(self).spec_allocated().contains_key(a) || active_account(old(self).spec_receivers(), ids.subrange(0, i as int), a)),
                forall|a: Seq<char>| #[trigger] self.spec_allocated().contains_key(a) ==> self.spec_allocated()[a]
                    == if active_account(old(self).spec_receivers(), ids.subrange(0, i as int), a) { share } else { old(self).spec_allocated()[a] as int },
            decreases n - i,
        {
            let id = *self.receivers.key_at(i);
            proof {
                self.receivers.lemma_key_seq_in_dom(i as int);
            }
            let receiver = self.receivers.get(&id).unwrap();
            let ghost prefix = ids.subrange(0, i as int);
            let ghost next = ids.subrange(0, i + 1);
            proof {
                assert(next.drop_last() =~= prefix);
                assert(next.last() == id);
                lemma_active_count_bound(old(self).spec_receivers(), prefix);
                assert(share * n <= total_emissions) by (nonlinear_arith)
                    requires
                        n > 0,
                        share == total_emissions as int / n as int,
                        total_emissions >= 0,
                ;
                let c0 = active_count(old(self).spec_receivers(), prefix);
                assert((c0 + 1) * share <= total_emissions) by (nonlinear_arith)
                    requires
                        0 <= c0 + 1 <= n,
                        share * n <= total_emissions,
                        share >= 0,
                ;
                assert forall|a: Seq<char>| active_account(old(self).spec_receivers(), prefix, a) implies active_account(
                    old(self).spec_receivers(), next, a) by {
                    let j = choose|j: int|
                        0 <= j < prefix.len() && old(self).spec_receivers().contains_key(#[trigger] prefix[j])
                            && old(self).spec_receivers()[prefix[j]].is_active && old(self).spec_receivers()[prefix[j]].account@ == a;
                    assert(next[j] == prefix[j]);
                }
                assert forall|a: Seq<char>| active_account(old(self).spec_receivers(), next, a) implies (active_account(
                    old(self).spec_receivers(), prefix, a) || (old(self).spec_receivers()[id].is_active
                    && old(self).spec_receivers()[id].account@ == a)) by {
                    let j = choose|j: int|
                        0 <= j < next.len() && old(self).spec_receivers().contains_key(#[trigger] next[j])
                            && old(self).spec_receivers()[next[j]].is_active && old(self).spec_receivers()[next[j]].account@ == a;
                    if j < i {
                        assert(prefix[j] == next[j]);
                    }
                }
            }
            let ghost before_alloc = self.spec_allocated();
            let ghost was_active = receiver.is_active;
            let ghost acct = receiver.account@;
            if receiver.is_active {
                let allocation = total_emissions / (n as u128);
                proof {
                    let c = active_count(old(self).spec_receivers(), prefix);
                    assert((c + 1) * share == c * share + share) by (nonlinear_arith);
                    assert(active_count(old(self).spec_receivers(), next) == c + 1);
                }
                let account = receiver.account.clone();
                total_allocated = total_allocated + allocation;
                self.allocated.insert(account, allocation);
            }
            proof {
                let rs = old(self).spec_receivers();
                assert(rs[id].is_active == was_active && rs[id].account@ == acct);
                if was_active {
                    assert(active_account(rs, next, acct)) by {
                        assert(next[i as int] == id);
                    }
                }
                assert forall|a: Seq<char>| #[trigger] self.spec_allocated().contains_key(a) == (old(self).spec_allocated().contains_key(a)
                    || active_account(rs, next, a)) && (self.spec_allocated().contains_key(a) ==> self.spec_allocated()[a]
                    == if active_account(rs, next, a) { share } else { old(self).spec_allocated()[a] as int }) by {
                    assert(before_alloc.contains_key(a) == (old(self).spec_allocated().contains_key(a) || active_account(rs, prefix, a)));
                    if before_alloc.contains_key(a) {
                        assert(before_alloc[a] == if active_account(rs, prefix, a) { share } else { old(self).spec_allocated()[a] as int });
                    }
                    if was_active && a == acct {
                    } else {
                        assert(active_account(rs, next, a) == active_account(rs, prefix, a));
                    }
                }
            }
            i = i + 1;
        }
        proof {
            assert(ids.subrange(0, n as int) =~= ids);
        }
        let ghost alloc_after = self.spec_allocated();
        self.unallocated_total = self.unallocated_total.saturating_sub(total_allocated);
        assert(self.spec_allocated() == alloc_after);
    }

    /// Pays `amount` of `receiver`'s allocation to it.
    pub fn transfer_allocated(&mut self, amount: u128, receiver: String) -> (r: TokenMove)
        requires
            old(self).well_formed(),
            old(self).spec_allocated().contains_key(receiver@),
            old(self).spec_allocated()[receiver@] >= amount,
        ensures
            final(self).well_formed(),
            final(self).spec_allocated() == old(self).spec_allocated().insert(
                receiver@,
                (old(self).spec_allocated()[receiver@] - amount) as u128,
            ),
            move_view(r) == (true, receiver@, amount, 0u64),
            final(self).spec_unallocated() == old(self).spec_unallocated(),
            final(self).spec_receivers() == old(self).spec_receivers(),
            final(self).spec_pending() == old(self).spec_pending(),
    {
        let allocated = *self.allocated.get(&receiver).unwrap();
        self.allocated.insert(receiver.clone(), allocated - amount);
        TokenMove::Transfer { receiver, amount }
    }
}

/// A payout into locks loses nothing: the whole lock units and what stays
/// pending add up to the amount, and what stays pending is less than one
/// unit.
pub proof fn lemma_payout_conserves(amount: u128, receiver: Seq<char>, ratio: u128, lock_weeks: u64)
    requires
        lock_weeks != 0,
        ratio > 0,
    ensures
        payout(amount, receiver, ratio, lock_weeks).0 matches Some(rest) && rest + (amount / ratio) * ratio == amount
            && 0 <= rest < ratio,
{
    let units = amount / ratio;
    assert(0 <= amount - units * ratio < ratio) by (nonlinear_arith)
        requires
            ratio > 0,
            units == amount / ratio,
    ;
}

} // verus!
