//! The stability pool: deposits of the debt token, the snapshots by which
//! deposits compound and earn rewards, and the collaterals it gains.
use crate::arch::{signs_state_transition, state_transition_request, InputToSign, ProgramError, TransactionToSign};
use crate::btc::{encode_transaction, serialize_transaction, spec_txid, txid, OutPoint, Transaction, UtxoSet};
use crate::types::{clone_bytes, Pubkey, Table, TableKey};
use vstd::prelude::*;

verus! {

/// The factor by which the product `P` is rescaled at each scale change.
pub const SCALE_FACTOR: u64 = 1_000_000_000;

/// A billionth: the least share of a deposit that survives two or more scale changes.
pub const BILLION: u64 = 1_000_000_000;

/// `SCALE_FACTOR` to the power `n`.
pub open spec fn scale_pow(n: nat) -> int
    decreases n,
{
    if n == 0 { 1 } else { SCALE_FACTOR * scale_pow((n - 1) as nat) }
}

fn scale_factor_pow(n: u64) -> (r: u64)
    requires
        n <= 2,
    ensures
        r == scale_pow(n as nat),
        r > 0,
{
    proof {
        reveal_with_fuel(scale_pow, 3);
    }
    if n == 0 {
        1
    } else if n == 1 {
        SCALE_FACTOR
    } else {
        SCALE_FACTOR * SCALE_FACTOR
    }
}

/// A value rescaled down by `SCALE_FACTOR` once per scale change.
pub open spec fn rescaled(v: u64, scale: u64) -> int {
    if scale > 0 { (v as int) / scale_pow(scale as nat) } else { v as int }
}

/// A depositor's snapshot: its deposit and the pool's product, gain and
/// scale when it last changed.
#[derive(Clone, Copy, Debug, PartialEq, Eq, Structural)]
pub struct DepositorSnapshot {
    pub last_deposit: u64,
    pub product_factor: u64,
    pub scale: u64,
    pub last_snapshot_time: u64,
    pub babel_gain: u64,
    pub stored_pending_reward: u64,
}

/// A collateral the pool holds: its amount and whether it is being retired.
#[derive(Clone, Copy, Debug, PartialEq, Eq, Structural)]
pub struct CollateralData {
    pub amount: u64,
    pub is_sunset: bool,
}

impl CollateralData {
    /// No collateral, not retired.
    pub fn new() -> (r: Self)
        ensures
            r.amount == 0,
            !r.is_sunset,
    {
        CollateralData { amount: 0, is_sunset: false }
    }

    /// Starts retiring the collateral.
    pub fn start_sunset(&mut self)
        ensures
            final(self).is_sunset,
            final(self).amount == old(self).amount,
    {
        self.is_sunset = true;
    }

    /// Offsets `debt_to_offset` against the collateral after adding
    /// `coll_to_add`; a retiring collateral is left as it is.
    pub fn offset(&mut self, debt_to_offset: u64, coll_to_add: u64)
        requires
            !old(self).is_sunset ==> old(self).amount + coll_to_add <= u64::MAX,
            !old(self).is_sunset ==> old(self).amount + coll_to_add >= debt_to_offset,
        ensures
            final(self).is_sunset == old(self).is_sunset,
            final(self).amount == if old(self).is_sunset {
                old(self).amount as int
            } else {
                old(self).amount + coll_to_add - debt_to_offset
            },
    {
        if !self.is_sunset {
            self.amount = self.amount + coll_to_add;
            self.amount = self.amount - debt_to_offset;
        }
    }

    /// Transfers `amount` of the collateral to `recipient`; the transfer
    /// itself is the runtime's, and always succeeds here.
    pub fn transfer(&mut self, recipient: u64, amount: u64) -> (r: Result<(), ProgramError>)
        ensures
            r is Ok,
            *final(self) == *old(self),
    {
        Ok(())
    }
}

/// The stability pool's state.
pub struct StabilityPool {
    deposits: Table<u64, u64>,
    total_stablecoins: u64,
    owner: u64,
    collaterals: Table<u64, CollateralData>,
    reward_rate: u64,
    last_update: u64,
    period_finish: u64,
    bitcoin_transactions: Vec<Transaction>,
    utxos: UtxoSet,
    depositor_snapshots: Table<u64, DepositorSnapshot>,
    p: u64,
    current_scale: u64,
    g: u64,
}

impl StabilityPool {
    pub closed spec fn well_formed(&self) -> bool {
        &&& self.deposits.well_formed()
        &&& self.collaterals.well_formed()
        &&& self.utxos.well_formed()
        &&& self.depositor_snapshots.well_formed()
    }

    pub closed spec fn spec_deposits(&self) -> Map<u64, u64> {
        self.deposits.view()
    }

    pub closed spec fn spec_total(&self) -> u64 {
        self.total_stablecoins
    }

    pub closed spec fn spec_owner(&self) -> u64 {
        self.owner
    }

    pub closed spec fn spec_collaterals(&self) -> Map<u64, CollateralData> {
        self.collaterals.view()
    }

    pub closed spec fn spec_snapshots(&self) -> Map<u64, DepositorSnapshot> {
        self.depositor_snapshots.view()
    }

    pub closed spec fn spec_p(&self) -> u64 {
        self.p
    }

    pub closed spec fn spec_g(&self) -> u64 {
        self.g
    }

    pub closed spec fn spec_scale(&self) -> u64 {
        self.current_scale
    }

    pub closed spec fn utxo_view(&self) -> Map<(Seq<u8>, u32), (u64, Seq<u8>)> {
        self.utxos.view()
    }

    pub closed spec fn spec_transactions(&self) -> Seq<Transaction> {
        self.bitcoin_transactions@
    }

    /// The product factor `P` at the current scale.
    pub open spec fn current_product_factor(&self) -> int {
        rescaled(self.spec_p(), self.spec_scale())
    }

    /// The reward gain sum `G` at the current scale.
    pub open spec fn current_babel_gain(&self) -> int {
        rescaled(self.spec_g(), self.spec_scale())
    }

    /// An empty pool owned by `owner_id`: `P` is one, `G` zero, scale zero.
    pub fn new(owner_id: u64) -> (r: Self)
        ensures
            r.well_formed(),
            r.spec_owner() == owner_id,
            r.spec_deposits() == Map::<u64, u64>::empty(),
            r.spec_total() == 0,
            r.spec_collaterals() == Map::<u64, CollateralData>::empty(),
            r.spec_snapshots() == Map::<u64, DepositorSnapshot>::empty(),
            r.spec_p() == 1,
            r.spec_g() == 0,
            r.spec_scale() == 0,
            r.utxo_view() == Map::<(Seq<u8>, u32), (u64, Seq<u8>)>::empty(),
            r.spec_transactions() == Seq::<Transaction>::empty(),
    {
        StabilityPool {
            deposits: Table::new(),
            total_stablecoins: 0,
            owner: owner_id,
            collaterals: Table::new(),
            reward_rate: 0,
            last_update: 0,
            period_finish: 0,
            bitcoin_transactions: Vec::new(),
            utxos: UtxoSet::new(),
            depositor_snapshots: Table::new(),
            p: 1,
            current_scale: 0,
            g: 0,
        }
    }

    /// The deposit of `account`; zero when it has none.
    pub fn deposit_of(&self, account: u64) -> (r: u64)
        requires
            self.well_formed(),
        ensures
            r == if self.spec_deposits().contains_key(account) { self.spec_deposits()[account] } else { 0 },
    {
        match self.deposits.get(&account) {
            Some(d) => *d,
            None => 0,
        }
    }

    /// The total deposited.
    pub fn total_stablecoins(&self) -> (r: u64)
        ensures
            r == self.spec_total(),
    {
        self.total_stablecoins
    }

    /// The owner deposits `amount`: its deposit and the total grow by it.
    /// Gives the request to sign the runtime's state transition `state_tx`
    /// by the default (all-zero) key.
    pub fn deposit(&mut self, caller: u64, amount: u64, state_tx: Transaction) -> (r: TransactionToSign)
        requires
            old(self).well_formed(),
            caller == old(self).spec_owner(),
            old(self).spec_total() + amount <= u64::MAX,
            old(self).spec_deposits().contains_key(caller) ==> old(self).spec_deposits()[caller] + amount <= u64::MAX,
        ensures
            final(self).well_formed(),
            signs_state_transition(r, state_tx, r.inputs_to_sign@[0].signer),
            r.inputs_to_sign@[0].signer@ == Seq::new(32, |i: int| 0u8),
            final(self).spec_deposits() == old(self).spec_deposits().insert(
                caller,
                ((if old(self).spec_deposits().contains_key(caller) { old(self).spec_deposits()[caller] } else { 0 }) + amount) as u64,
            ),
            final(self).spec_total() == old(self).spec_total() + amount,
            final(self).spec_owner() == old(self).spec_owner(),
            final(self).spec_snapshots() == old(self).spec_snapshots(),
    {
        let current = match self.deposits.get(&caller) {
            Some(d) => *d,
            None => 0,
        };
        self.deposits.insert(caller, current + amount);
        self.total_stablecoins = self.total_stablecoins + amount;
        state_transition_request(&state_tx, Pubkey::zero())
    }

    /// The owner withdraws `amount` from its deposit: done when it has a
    /// deposit of at least `amount`, and then the request to sign the
    /// runtime's state transition `state_tx` by the default (all-zero) key
    /// is given; otherwise nothing changes and `None` is returned.
    pub fn withdraw(&mut self, caller: u64, amount: u64, state_tx: Transaction) -> (r: Option<TransactionToSign>)
        requires
            old(self).well_formed(),
            caller == old(self).spec_owner(),
            old(self).spec_deposits().contains_key(caller) && old(self).spec_deposits()[caller] >= amount ==> amount
                <= old(self).spec_total(),
        ensures
            final(self).well_formed(),
            r is Some == (old(self).spec_deposits().contains_key(caller) && old(self).spec_deposits()[caller] >= amount),
            r matches Some(t) ==> signs_state_transition(t, state_tx, t.inputs_to_sign@[0].signer)
                && t.inputs_to_sign@[0].signer@ == Seq::new(32, |i: int| 0u8),
            r is Some ==> final(self).spec_deposits() == old(self).spec_deposits().insert(
                caller,
                (old(self).spec_deposits()[caller] - amount) as u64,
            ) && final(self).spec_total() == old(self).spec_total() - amount,
            r is None ==> final(self).spec_deposits() == old(self).spec_deposits() && final(self).spec_total() == old(self).spec_total(),
            final(self).spec_owner() == old(self).spec_owner(),
            final(self).spec_snapshots() == old(self).spec_snapshots(),
    {
        match self.deposits.get(&caller) {
            Some(d) => {
                let current = *d;
                if current >= amount {
                    self.deposits.insert(caller, current - amount);
                    self.total_stablecoins = self.total_stablecoins - amount;
                    return Some(state_transition_request(&state_tx, Pubkey::zero()));
                }
                None
            },
            None => None,
        }
    }

    #[verifier::spinoff_prover]
    /// Keeps `tx` and records each of its outputs as an unspent output of
    /// the pool; returns the transaction to sign (no inputs to sign).
    pub fn add_bitcoin_transaction(&mut self, tx: Transaction) -> (r: TransactionToSign)
        requires
            old(self).well_formed(),
            tx.output@.len() <= u32::MAX,
        ensures
            final(self).well_formed(),
            final(self).spec_transactions() == old(self).spec_transactions().push(tx),
            r.tx_bytes@ == encode_transaction(tx),
            r.inputs_to_sign@.len() == 0,
            forall|v: u32| v < tx.output@.len() ==> #[trigger] final(self).utxo_view().contains_key((spec_txid(tx), v))
                && final(self).utxo_view()[(spec_txid(tx), v)].0 == tx.output@[v as int].value && final(self).utxo_view()[(spec_txid(tx), v)].1 == tx.output@[v as int].script_pubkey@,
            forall|k: (Seq<u8>, u32)| k.0 != spec_txid(tx) ==> #[trigger] final(self).utxo_view().contains_key(k) == old(self).utxo_view().contains_key(k)
                && (old(self).utxo_view().contains_key(k) ==> final(self).utxo_view()[k] == old(self).utxo_view()[k]),
            final(self).spec_deposits() == old(self).spec_deposits(),
            final(self).spec_snapshots() == old(self).spec_snapshots(),
    {
        let tx_bytes = serialize_transaction(&tx);
        let id = txid(&tx);
        let ghost t = spec_txid(tx);
        let n = tx.output.len();
        let mut vout: usize = 0;
        while vout < n
            invariant
                self.utxos.well_formed(),
                vout <= n,
                n == tx.output@.len(),
                n <= u32::MAX,
                id@ == t,
                t == spec_txid(tx),
                outputs_recorded(self.utxos.view(), t, tx.output@, vout as int),
                forall|k: (Seq<u8>, u32)| k.0 != t ==> #[trigger] self.utxos.view().contains_key(k) == old(self).utxos.view().contains_key(k)
                    && (old(self).utxos.view().contains_key(k) ==> self.utxos.view()[k] == old(self).utxos.view()[k]),
                self.deposits == old(self).deposits,
                self.depositor_snapshots == old(self).depositor_snapshots,
                self.collaterals == old(self).collaterals,
                self.bitcoin_transactions == old(self).bitcoin_transactions,
            decreases n - vout,
        {
            let output = &tx.output[vout];
            let script = clone_bytes(&output.script_pubkey);
            let ghost before = self.utxos.view();
            self.utxos.insert_output(id, vout as u32, output.value, script);
            proof {
                assert(self.utxos.view() == before.insert(
                    (t, vout as u32),
                    (tx.output@[vout as int].value, tx.output@[vout as int].script_pubkey@),
                ));
                lemma_outputs_recorded_step(before, self.utxos.view(), t, tx.output@, vout as int);
            }
            vout = vout + 1;
        }
        self.bitcoin_transactions.push(tx);
        TransactionToSign { tx_bytes, inputs_to_sign: Vec::new() }
    }

    /// Holds a collateral with id `id`, starting with nothing.
    pub fn enable_collateral(&mut self, id: u64)
        requires
            old(self).well_formed(),
        ensures
            final(self).well_formed(),
            final(self).spec_collaterals() == old(self).spec_collaterals().insert(id, CollateralData { amount: 0, is_sunset: false }),
            final(self).spec_snapshots() == old(self).spec_snapshots(),
            final(self).spec_deposits() == old(self).spec_deposits(),
    {
        self.collaterals.insert(id, CollateralData::new());
    }

    /// The product factor `P` at the current scale.
    fn calculate_current_product_factor(&self) -> (r: u64)
        requires
            self.spec_scale() <= 2,
        ensures
            r == self.current_product_factor(),
    {
        if self.current_scale > 0 {
            self.p / scale_factor_pow(self.current_scale)
        } else {
            self.p
        }
    }

    /// The reward gain sum `G` at the current scale.
    fn calculate_current_babel_gain(&self) -> (r: u64)
        requires
            self.spec_scale() <= 2,
        ensures
            r == self.current_babel_gain(),
    {
        if self.current_scale > 0 {
            self.g / scale_factor_pow(self.current_scale)
        } else {
            self.g
        }
    }

    /// Records `depositor`'s deposit as `new_value` at `now`, with the
    /// pool's current product, gain and scale; a zero deposit clears the snapshot.
    pub fn update_depositor_snapshot(&mut self, depositor: u64, new_value: u64, now: u64)
        requires
            old(self).well_formed(),
            old(self).spec_scale() <= 2,
        ensures
            final(self).well_formed(),
            new_value == 0 ==> final(self).spec_snapshots() == old(self).spec_snapshots().remove(depositor),
            new_value != 0 ==> final(self).spec_snapshots() == old(self).spec_snapshots().insert(
                depositor,
                DepositorSnapshot {
                    last_deposit: new_value,
                    product_factor: old(self).current_product_factor() as u64,
                    scale: old(self).spec_scale(),
                    last_snapshot_time: now,
                    babel_gain: old(self).current_babel_gain() as u64,
                    stored_pending_reward: 0,
                },
            ),
            final(self).spec_deposits() == old(self).spec_deposits(),
            final(self).spec_p() == old(self).spec_p(),
            final(self).spec_g() == old(self).spec_g(),
            final(self).spec_scale() == old(self).spec_scale(),
            final(self).spec_owner() == old(self).spec_owner(),
            final(self).spec_collaterals() == old(self).spec_collaterals(),
    {
        if new_value == 0 {
            let _ = self.depositor_snapshots.remove(&depositor);
        } else {
            let snapshot = DepositorSnapshot {
                last_deposit: new_value,
                product_factor: self.calculate_current_product_factor(),
                scale: self.current_scale,
                last_snapshot_time: now,
                babel_gain: self.calculate_current_babel_gain(),
                stored_pending_reward: 0,
            };
            self.depositor_snapshots.insert(depositor, snapshot);
        }
    }

    /// The snapshot of `depositor`, if it has one.
    pub fn snapshot(&self, depositor: u64) -> (r: Option<DepositorSnapshot>)
        requires
            self.well_formed(),
        ensures
            r == if self.spec_snapshots().contains_key(depositor) {
                Some(self.spec_snapshots()[depositor])
            } else {
                None::<DepositorSnapshot>
            },
    {
        match self.depositor_snapshots.get(&depositor) {
            Some(s) => Some(*s),
            None => None,
        }
    }

    /// The collateral gain of `depositor`: its deposit times the growth of
    /// the product since its snapshot, relative to the snapshot's product.
    /// Refused for a depositor without a snapshot.
    pub fn get_depositor_collateral_gain(&self, depositor: u64) -> (r: Result<u64, ProgramError>)
        requires
            self.well_formed(),
            self.spec_scale() <= 2,
            self.spec_snapshots().contains_key(depositor) ==> {
                let s = self.spec_snapshots()[depositor];
                &&& s.product_factor > 0
                &&& self.current_product_factor() >= s.product_factor
                &&& s.last_deposit * (self.current_product_factor() - s.product_factor) <= u64::MAX
            },
        ensures
            !self.spec_snapshots().contains_key(depositor) ==> r == Err::<u64, ProgramError>(ProgramError::InvalidAccountData),
            self.spec_snapshots().contains_key(depositor) ==> {
                let s = self.spec_snapshots()[depositor];
                r == Ok::<u64, ProgramError>(
                    (s.last_deposit * (self.current_product_factor() - s.product_factor) / (s.product_factor as int)) as u64,
                )
            },
    {
        let snapshot = match self.depositor_snapshots.get(&depositor) {
            Some(s) => *s,
            None => {
                return Err(ProgramError::InvalidAccountData);
            },
        };
        let current_product_factor = self.calculate_current_product_factor();
        let gain = snapshot.last_deposit * (current_product_factor - snapshot.product_factor) / snapshot.product_factor;
        Ok(gain)
    }

    /// The reward `depositor` can claim: its deposit times the growth of the
    /// gain sum since its snapshot, relative to the snapshot's product.
    /// Refused for a depositor without a snapshot.
    pub fn claimable_reward(&self, depositor: u64) -> (r: Result<u64, ProgramError>)
        requires
            self.well_formed(),
            self.spec_scale() <= 2,
            self.spec_snapshots().contains_key(depositor) ==> {
                let s = self.spec_snapshots()[depositor];
                &&& s.product_factor > 0
                &&& self.current_babel_gain() >= s.babel_gain
                &&& s.last_deposit * (self.current_babel_gain() - s.babel_gain) <= u64::MAX
            },
        ensures
            !self.spec_snapshots().contains_key(depositor) ==> r == Err::<u64, ProgramError>(ProgramError::InvalidAccountData),
            self.spec_snapshots().contains_key(depositor) ==> {
                let s = self.spec_snapshots()[depositor];
                r == Ok::<u64, ProgramError>(
                    (s.last_deposit * (self.current_babel_gain() - s.babel_gain) / (s.product_factor as int)) as u64,
                )
            },
    {
        let snapshot = match self.depositor_snapshots.get(&depositor) {
            Some(s) => *s,
            None => {
                return Err(ProgramError::InvalidAccountData);
            },
        };
        let current_babel_gain = self.calculate_current_babel_gain();
        let babel_reward = snapshot.last_deposit * (current_babel_gain - snapshot.babel_gain) / snapshot.product_factor;
        Ok(babel_reward)
    }

    /// Adds the reward `depositor` can claim (see `claimable_reward`) to the
    /// reward its snapshot keeps pending. Refused for a depositor without a
    /// snapshot.
    pub fn accrue_rewards(&mut self, depositor: u64) -> (r: Result<(), ProgramError>)
        requires
            old(self).well_formed(),
            old(self).spec_scale() <= 2,
            old(self).spec_snapshots().contains_key(depositor) ==> {
                let s = old(self).spec_snapshots()[depositor];
                &&& s.product_factor > 0
                &&& old(self).current_babel_gain() >= s.babel_gain
                &&& s.last_deposit * (old(self).current_babel_gain() - s.babel_gain) <= u64::MAX
                &&& s.stored_pending_reward + s.last_deposit * (old(self).current_babel_gain() - s.babel_gain)
                    / (s.product_factor as int) <= u64::MAX
            },
        ensures
            final(self).well_formed(),
            !old(self).spec_snapshots().contains_key(depositor) ==> r == Err::<(), ProgramError>(ProgramError::InvalidAccountData)
                && final(self).spec_snapshots() == old(self).spec_snapshots(),
            old(self).spec_snapshots().contains_key(depositor) ==> {
                let s = old(self).spec_snapshots()[depositor];
                let reward = s.last_deposit * (old(self).current_babel_gain() - s.babel_gain) / (s.product_factor as int);
                &&& r is Ok
                &&& final(self).spec_snapshots() == old(self).spec_snapshots().insert(
                    depositor,
                    DepositorSnapshot { stored_pending_reward: (s.stored_pending_reward + reward) as u64, ..s },
                )
            },
            final(self).spec_deposits() == old(self).spec_deposits(),
            final(self).spec_p() == old(self).spec_p(),
            final(self).spec_g() == old(self).spec_g(),
            final(self).spec_scale() == old(self).spec_scale(),
            final(self).spec_owner() == old(self).spec_owner(),
            final(self).spec_collaterals() == old(self).spec_collaterals(),
    {
        let reward = match self.claimable_reward(depositor) {
            Ok(reward) => reward,
            Err(e) => {
                return Err(e);
            },
        };
        let snapshot = match self.depositor_snapshots.get(&depositor) {
            Some(s) => *s,
            None => {
                return Err(ProgramError::InvalidAccountData);
            },
        };
        self.depositor_snapshots.insert(
            depositor,
            DepositorSnapshot { stored_pending_reward: snapshot.stored_pending_reward + reward, ..snapshot },
        );
        Ok(())
    }

    /// The reward gained by `stake` since snapshot `s`: the growth of the
    /// gain sum relative to the snapshot's product, divided once more by the
    /// scale factor after one scale change, and nothing after two or more.
    pub open spec fn babel_gain_from_snapshot(&self, stake: u64, s: DepositorSnapshot) -> int {
        let diff = self.spec_scale() - s.scale;
        if diff == 0 {
            stake * (self.current_babel_gain() - s.babel_gain) / (s.product_factor as int)
        } else if diff == 1 {
            stake * (self.current_babel_gain() - s.babel_gain) / (s.product_factor as int) / (SCALE_FACTOR as int)
        } else {
            0
        }
    }

    /// The reward gained by `initial_stake` since `snapshots` was taken (see
    /// `babel_gain_from_snapshot`).
    pub fn get_babel_gain_from_snapshots(&self, initial_stake: u64, snapshots: &DepositorSnapshot) -> (r: u64)
        requires
            self.spec_scale() <= 2,
            self.spec_scale() >= snapshots.scale,
            snapshots.product_factor > 0,
            self.current_babel_gain() >= snapshots.babel_gain,
            initial_stake * (self.current_babel_gain() - snapshots.babel_gain) <= u64::MAX,
        ensures
            r == self.babel_gain_from_snapshot(initial_stake, *snapshots),
    {
        let snapshot_p = snapshots.product_factor;
        let snapshot_g = snapshots.babel_gain;
        let scale_diff = self.current_scale - snapshots.scale;
        if scale_diff == 0 {
            (initial_stake * (self.calculate_current_babel_gain() - snapshot_g)) / snapshot_p
        } else if scale_diff == 1 {
            (initial_stake * (self.calculate_current_babel_gain() - snapshot_g)) / snapshot_p / SCALE_FACTOR
        } else {
            0
        }
    }

    /// A stake compounded from a snapshot: scaled by the product's growth,
    /// across the scale changes since the snapshot; after two or more
    /// changes at least a billionth of it survives.
    pub open spec fn compounded_stake(&self, stake: u64, s: DepositorSnapshot) -> int {
        let diff = self.spec_scale() - s.scale;
        if diff == 0 {
            stake * self.current_product_factor() / (s.product_factor as int)
        } else if diff == 1 {
            stake * self.current_product_factor() / (s.product_factor * SCALE_FACTOR)
        } else {
            let scaled = stake * self.current_product_factor() / (s.product_factor * scale_pow(diff as nat));
            if (stake as int) / (BILLION as int) >= scaled { (stake as int) / (BILLION as int) } else { scaled }
        }
    }

    /// Compounding `stake` from snapshot `s` computes without overflow.
    pub open spec fn compounding_defined(&self, stake: u64, s: DepositorSnapshot) -> bool {
        &&& self.spec_scale() >= s.scale
        &&& s.product_factor > 0
        &&& stake * self.current_product_factor() <= u64::MAX
        &&& s.product_factor * scale_pow((self.spec_scale() - s.scale) as nat) <= u64::MAX
    }

    fn get_compounded_stake_from_snapshots(&self, initial_stake: u64, snapshots: &DepositorSnapshot) -> (r: u64)
        requires
            self.spec_scale() <= 2,
            self.compounding_defined(initial_stake, *snapshots),
        ensures
            r == self.compounded_stake(initial_stake, *snapshots),
    {
        let snapshot_p = snapshots.product_factor;
        let current_p = self.calculate_current_product_factor();
        let scale_diff = self.current_scale - snapshots.scale;
        proof {
            reveal_with_fuel(scale_pow, 3);
        }
        if scale_diff == 0 {
            (initial_stake * current_p) / snapshot_p
        } else if scale_diff == 1 {
            (initial_stake * current_p) / (snapshot_p * SCALE_FACTOR)
        } else {
            assert(snapshot_p * scale_pow(scale_diff as nat) > 0) by (nonlinear_arith)
                requires
                    snapshot_p > 0,
                    scale_pow(scale_diff as nat) > 0,
            ;
            let a = initial_stake / BILLION;
            let b = (initial_stake * current_p) / (snapshot_p * scale_factor_pow(scale_diff));
            if a >= b { a } else { b }
        }
    }

    /// The compounded deposit of `depositor`; refused without a snapshot.
    pub fn get_compounded_debt_deposit(&self, depositor: u64) -> (r: Result<u64, ProgramError>)
        requires
            self.well_formed(),
            self.spec_scale() <= 2,
            self.spec_snapshots().contains_key(depositor) ==> self.compounding_defined(
                self.spec_snapshots()[depositor].last_deposit,
                self.spec_snapshots()[depositor],
            ),
        ensures
            !self.spec_snapshots().contains_key(depositor) ==> r == Err::<u64, ProgramError>(ProgramError::InvalidAccountData),
            self.spec_snapshots().contains_key(depositor) ==> r == Ok::<u64, ProgramError>(
                self.compounded_stake(self.spec_snapshots()[depositor].last_deposit, self.spec_snapshots()[depositor]) as u64,
            ),
    {
        let snapshot = match self.depositor_snapshots.get(&depositor) {
            Some(s) => *s,
            None => {
                return Err(ProgramError::InvalidAccountData);
            },
        };
        Ok(self.get_compounded_stake_from_snapshots(snapshot.last_deposit, &snapshot))
    }

    /// Claiming rewards for `account` computes without overflow.
    pub open spec fn claim_defined(&self, account: u64) -> bool {
        self.spec_snapshots().contains_key(account) ==> {
            let s = self.spec_snapshots()[account];
            &&& self.current_babel_gain() >= s.babel_gain
            &&& self.compounding_defined(s.last_deposit, s)
            &&& self.current_babel_gain() - s.babel_gain + self.compounded_stake(s.last_deposit, s) <= u64::MAX
        }
    }

    /// Claims for `recipient`: the gain sum's growth since its snapshot plus
    /// its compounded deposit, which is returned as the amount the vault
    /// owes; the snapshot then holds the current gain sum and the compounded
    /// deposit. Refused for an account without a snapshot.
    pub fn claim_reward(&mut self, recipient: u64) -> (r: Result<u64, ProgramError>)
        requires
            old(self).well_formed(),
            old(self).spec_scale() <= 2,
            old(self).claim_defined(recipient),
        ensures
            final(self).well_formed(),
            !old(self).spec_snapshots().contains_key(recipient) ==> r == Err::<u64, ProgramError>(ProgramError::InvalidAccountData)
                && final(self).spec_snapshots() == old(self).spec_snapshots(),
            old(self).spec_snapshots().contains_key(recipient) ==> {
                let s = old(self).spec_snapshots()[recipient];
                let compounded = old(self).compounded_stake(s.last_deposit, s);
                &&& r == Ok::<u64, ProgramError>((old(self).current_babel_gain() - s.babel_gain + compounded) as u64)
                &&& final(self).spec_snapshots() == old(self).spec_snapshots().insert(
                    recipient,
                    DepositorSnapshot {
                        babel_gain: old(self).current_babel_gain() as u64,
                        last_deposit: compounded as u64,
                        ..s
                    },
                )
            },
            final(self).spec_deposits() == old(self).spec_deposits(),
            final(self).spec_p() == old(self).spec_p(),
            final(self).spec_g() == old(self).spec_g(),
            final(self).spec_scale() == old(self).spec_scale(),
            final(self).spec_owner() == old(self).spec_owner(),
            final(self).spec_collaterals() == old(self).spec_collaterals(),
    {
        let snapshot = match self.depositor_snapshots.get(&recipient) {
            Some(s) => *s,
            None => {
                return Err(ProgramError::InvalidAccountData);
            },
        };
        let current_gain = self.calculate_current_babel_gain();
        let reward = current_gain - snapshot.babel_gain;
        let compounded_deposit = self.get_compounded_stake_from_snapshots(snapshot.last_deposit, &snapshot);
        let final_reward = reward + compounded_deposit;
        self.depositor_snapshots.insert(
            recipient,
            DepositorSnapshot { babel_gain: current_gain, last_deposit: compounded_deposit, ..snapshot },
        );
        Ok(final_reward)
    }

    /// The vault claims for `claimant`; refused for a caller that is not the vault.
    pub fn vault_claim_reward(&mut self, claimant: u64, vault_id: u64) -> (r: Result<u64, ProgramError>)
        requires
            old(self).well_formed(),
            old(self).spec_scale() <= 2,
            old(self).claim_defined(claimant),
        ensures
            final(self).well_formed(),
            vault_id != old(self).spec_owner() ==> r == Err::<u64, ProgramError>(ProgramError::InvalidAccountData)
                && final(self).spec_snapshots() == old(self).spec_snapshots(),
            vault_id == old(self).spec_owner() ==> {
                let s = old(self).spec_snapshots()[claimant];
                let compounded = old(self).compounded_stake(s.last_deposit, s);
                &&& !old(self).spec_snapshots().contains_key(claimant) ==> r == Err::<u64, ProgramError>(ProgramError::InvalidAccountData)
                &&& old(self).spec_snapshots().contains_key(claimant) ==> r == Ok::<u64, ProgramError>(
                    (old(self).current_babel_gain() - s.babel_gain + compounded) as u64,
                )
            },
            final(self).spec_deposits() == old(self).spec_deposits(),
    {
        if self.owner != vault_id {
            return Err(ProgramError::InvalidAccountData);
        }
        self.claim_reward(claimant)
    }

    /// The length of the longest prefix of `indexes` that names held collaterals.
    pub open spec fn held_prefix(&self, indexes: Seq<u64>) -> int {
        held_prefix_len(self.spec_collaterals(), indexes)
    }

    /// Pays out, in order, the collaterals named by `collateral_indexes`,
    /// zeroing each; refused at the first index that names no collateral,
    /// after paying out those before it.
    pub fn claim_collateral_gains(&mut self, recipient: u64, collateral_indexes: Vec<u64>) -> (r: Result<(), ProgramError>)
        requires
            old(self).well_formed(),
        ensures
            final(self).well_formed(),
            r is Ok <==> old(self).held_prefix(collateral_indexes@) == collateral_indexes@.len(),
            r is Err ==> r == Err::<(), ProgramError>(ProgramError::InvalidAccountData),
            final(self).spec_collaterals() == zeroed(
                old(self).spec_collaterals(),
                collateral_indexes@.take(old(self).held_prefix(collateral_indexes@)),
            ),
            final(self).spec_deposits() == old(self).spec_deposits(),
            final(self).spec_snapshots() == old(self).spec_snapshots(),
    {
        let ghost idx = collateral_indexes@;
        let ghost m0 = old(self).spec_collaterals();
        proof {
            lemma_held_prefix_bounds(m0, idx);
        }
        let mut i: usize = 0;
        while i < collateral_indexes.len()
            invariant
                self.well_formed(),
                m0 == old(self).spec_collaterals(),
                idx == collateral_indexes@,
                i <= idx.len(),
                i <= held_prefix_len(m0, idx),
                held_prefix_len(m0, idx) <= idx.len(),
                forall|j: int| 0 <= j < i ==> m0.contains_key(#[trigger] idx[j]),
                held_prefix_len(m0, idx) == i + held_prefix_len(m0, idx.skip(i as int)),
                self.spec_collaterals() == zeroed(m0, idx.take(i as int)),
                forall|k: u64| #[trigger] self.spec_collaterals().contains_key(k) == m0.contains_key(k),
                self.spec_deposits() == old(self).spec_deposits(),
                self.spec_snapshots() == old(self).spec_snapshots(),
            decreases idx.len() - i,
        {
            let index = collateral_indexes[i];
            assert(idx.skip(i as int)[0] == idx[i as int]);
            assert(idx.skip(i as int).drop_first() =~= idx.skip(i + 1));
            let data = match self.collaterals.get(&index) {
                Some(d) => *d,
                None => {
                    proof {
                        assert(!m0.contains_key(idx[i as int]));
                        assert(held_prefix_len(m0, idx.skip(i as int)) == 0);
                    }
                    return Err(ProgramError::InvalidAccountData);
                },
            };
            let mut data = data;
            let _ = data.transfer(recipient, data.amount);
            data.amount = 0;
            self.collaterals.insert(index, data);
            proof {
                assert(m0.contains_key(idx[i as int]));
                assert(held_prefix_len(m0, idx.skip(i as int)) == 1 + held_prefix_len(m0, idx.skip(i + 1)));
                lemma_held_prefix_bounds(m0, idx.skip(i + 1));
            }
            assert(idx.take(i + 1).drop_last() =~= idx.take(i as int));
            i = i + 1;
        }
        assert(idx.skip(i as int).len() == 0);
        Ok(())
    }
}

/// Recording output `vout` keeps the outputs recorded before it.
#[verifier::spinoff_prover]
/// The first `n` outputs of `outs` are recorded under `t` in `m`, each with
/// its value and locking script.
pub open spec fn outputs_recorded(m: Map<(Seq<u8>, u32), (u64, Seq<u8>)>, t: Seq<u8>, outs: Seq<crate::btc::TxOut>, n: int) -> bool {
    forall|v: u32| v < n ==> #[trigger] m.contains_key((t, v)) && m[(t, v)].0 == outs[v as int].value && m[(t, v)].1
        == outs[v as int].script_pubkey@
}

proof fn lemma_outputs_recorded_step(
    before: Map<(Seq<u8>, u32), (u64, Seq<u8>)>,
    after: Map<(Seq<u8>, u32), (u64, Seq<u8>)>,
    t: Seq<u8>,
    outs: Seq<crate::btc::TxOut>,
    vout: int,
)
    requires
        0 <= vout < outs.len() <= u32::MAX,
        after == before.insert((t, vout as u32), (outs[vout].value, outs[vout].script_pubkey@)),
        forall|v: u32| v < vout ==> #[trigger] before.contains_key((t, v))
            && before[(t, v)].0 == outs[v as int].value && before[(t, v)].1 == outs[v as int].script_pubkey@,
    ensures
        forall|v: u32| v < vout + 1 ==> #[trigger] after.contains_key((t, v))
            && after[(t, v)].0 == outs[v as int].value && after[(t, v)].1 == outs[v as int].script_pubkey@,
{
    assert forall|v: u32| v < vout + 1 implies #[trigger] after.contains_key((t, v))
        && after[(t, v)].0 == outs[v as int].value && after[(t, v)].1 == outs[v as int].script_pubkey@ by {
        if v < vout {
            assert(before.contains_key((t, v)));
            assert((t, v) != (t, vout as u32));
        } else {
            assert(v as int == vout);
            assert((t, v) == (t, vout as u32));
        }
    }
}

/// The length of the longest prefix of `indexes` that are keys of `m`.
pub open spec fn held_prefix_len(m: Map<u64, CollateralData>, indexes: Seq<u64>) -> int
    decreases indexes.len(),
{
    if indexes.len() == 0 || !m.contains_key(indexes[0]) { 0 } else { 1 + held_prefix_len(m, indexes.drop_first()) }
}

/// The collaterals after zeroing those named by `indexes`, in order.
pub open spec fn zeroed(m: Map<u64, CollateralData>, indexes: Seq<u64>) -> Map<u64, CollateralData>
    decreases indexes.len(),
{
    if indexes.len() == 0 {
        m
    } else {
        let z = zeroed(m, indexes.drop_last());
        z.insert(indexes.last(), CollateralData { amount: 0, ..z[indexes.last()] })
    }
}

proof fn lemma_held_prefix_bounds(m: Map<u64, CollateralData>, indexes: Seq<u64>)
    ensures
        0 <= held_prefix_len(m, indexes) <= indexes.len(),
        held_prefix_len(m, indexes) == 0 + held_prefix_len(m, indexes.skip(0)),
    decreases indexes.len(),
{
    assert(indexes.skip(0) =~= indexes);
    if indexes.len() > 0 && m.contains_key(indexes[0]) {
        lemma_held_prefix_bounds(m, indexes.drop_first());
    }
}

/// Withdrawing what was just deposited succeeds and gives the depositor
/// back the deposit it had (zero if it had none); the other deposits are
/// untouched.
pub proof fn lemma_withdraw_undoes_deposit(deposits: Map<u64, u64>, caller: u64, amount: u64)
    requires
        (if deposits.contains_key(caller) { deposits[caller] as int } else { 0 }) + amount <= u64::MAX,
    ensures
        ({
            let before = if deposits.contains_key(caller) { deposits[caller] as int } else { 0 };
            let deposited = deposits.insert(caller, (before + amount) as u64);
            let withdrawn = deposited.insert(caller, (deposited[caller] - amount) as u64);
            &&& deposited.contains_key(caller) && deposited[caller] >= amount
            &&& withdrawn[caller] == before
            &&& forall|k: u64| k != caller ==> #[trigger] withdrawn.contains_key(k) == deposits.contains_key(k)
                && (deposits.contains_key(k) ==> withdrawn[k] == deposits[k])
        }),
{
}

} // verus!
