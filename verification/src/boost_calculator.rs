//! The boost of emissions: after a grace period, an account's emissions are
//! scaled by its share of the locked weight and by how much of last week's
//! emissions it received.
use crate::arch::{InputToSign, TransactionToSign};
use crate::btc::{encode_transaction, serialize_transaction, OutPoint, Transaction, UtxoSet, spec_txid};
use crate::system_start::{week_number, SystemStart};
use crate::types::{Pubkey, Table, TableKey};
use vstd::prelude::*;

verus! {

/// The precision of shares (1e9).
pub const PCT_PRECISION: u64 = 1_000_000_000;

/// The boost calculator's state.
pub struct BoostCalculator {
    locker: Pubkey,
    max_boost_grace_weeks: u32,
    account_weekly_lock_pct: Table<(Pubkey, u32), u64>,
    total_weekly_weights: Table<u32, u64>,
    transactions: Vec<Transaction>,
    utxos: UtxoSet,
}

/// An account's share of the total weight, in billionths.
pub open spec fn weight_pct(account_weight: int, total_weight: int) -> int {
    PCT_PRECISION * account_weight / total_weight
}

/// The amount after the boost: the share of the amount, scaled by the
/// share of last week's emissions that the previous amount was.
pub open spec fn adjusted_amount(amount: int, previous_amount: int, total_weekly_emissions: int, pct: int) -> int {
    let base = amount * pct / PCT_PRECISION as int;
    if total_weekly_emissions > 0 {
        let factor = previous_amount * PCT_PRECISION / total_weekly_emissions;
        base * factor / PCT_PRECISION as int
    } else {
        base
    }
}

/// The arithmetic of `adjusted_amount` stays within `u64`.
pub open spec fn adjusted_fits(amount: int, previous_amount: int, total_weekly_emissions: int, pct: int) -> bool {
    &&& amount * pct <= u64::MAX
    &&& total_weekly_emissions > 0 ==> previous_amount * PCT_PRECISION <= u64::MAX
        && (amount * pct / PCT_PRECISION as int) * (previous_amount * PCT_PRECISION / total_weekly_emissions) <= u64::MAX
}

impl BoostCalculator {
    pub closed spec fn well_formed(&self) -> bool {
        &&& self.account_weekly_lock_pct.well_formed()
        &&& self.total_weekly_weights.well_formed()
        &&& self.utxos.well_formed()
    }

    pub closed spec fn spec_locker(&self) -> Seq<u8> {
        self.locker@
    }

    pub closed spec fn spec_grace_weeks(&self) -> u32 {
        self.max_boost_grace_weeks
    }

    /// Each account's lock weight in each week.
    pub closed spec fn spec_lock_pct(&self) -> Map<(Seq<u8>, u32), u64> {
        self.account_weekly_lock_pct.view()
    }

    /// The total lock weight in each week.
    pub closed spec fn spec_total_weights(&self) -> Map<u32, u64> {
        self.total_weekly_weights.view()
    }

    pub closed spec fn spec_transactions(&self) -> Seq<Transaction> {
        self.transactions@
    }

    pub closed spec fn utxo_view(&self) -> Map<(Seq<u8>, u32), (u64, Seq<u8>)> {
        self.utxos.view()
    }

    /// An account's lock weight in `week`; zero when none is recorded.
    pub open spec fn account_weight(&self, account: Seq<u8>, week: u32) -> int {
        if self.spec_lock_pct().contains_key((account, week)) { self.spec_lock_pct()[(account, week)] as int } else { 0 }
    }

    /// The total lock weight in `week`; one when none is recorded.
    pub open spec fn total_weight(&self, week: u32) -> int {
        if self.spec_total_weights().contains_key(week) { self.spec_total_weights()[week] as int } else { 1 }
    }

    /// A calculator whose grace period lasts `grace_weeks` weeks from the
    /// week of `now`.
    pub fn new(locker: Pubkey, grace_weeks: u32, system_start: &SystemStart, now: u64) -> (r: Self)
        requires
            now >= system_start.spec_start_time(),
            grace_weeks + week_number(system_start.spec_start_time() as int, now as int) <= u32::MAX,
        ensures
            r.well_formed(),
            r.spec_locker() == locker@,
            r.spec_grace_weeks() == grace_weeks + week_number(system_start.spec_start_time() as int, now as int),
            r.spec_lock_pct() == Map::<(Seq<u8>, u32), u64>::empty(),
            r.spec_total_weights() == Map::<u32, u64>::empty(),
            r.spec_transactions() == Seq::<Transaction>::empty(),
            r.utxo_view() == Map::<(Seq<u8>, u32), (u64, Seq<u8>)>::empty(),
    {
        let current_week = system_start.get_week(now);
        BoostCalculator {
            locker,
            max_boost_grace_weeks: grace_weeks + current_week as u32,
            account_weekly_lock_pct: Table::new(),
            total_weekly_weights: Table::new(),
            transactions: Vec::new(),
            utxos: UtxoSet::new(),
        }
    }

    /// The week of `now`, counted from the system's start.
    pub fn get_week(&self, system_start: &SystemStart, now: u64) -> (r: u32)
        requires
            now >= system_start.spec_start_time(),
        ensures
            r == week_number(system_start.spec_start_time() as int, now as int) as u32,
    {
        system_start.get_week(now) as u32
    }

    /// `account`'s boosted amount in `week`: the amount itself during the
    /// grace period, else the amount adjusted by the account's share of the
    /// previous week's lock weight.
    pub fn get_boosted_amount(&self, account: Pubkey, amount: u64, previous_amount: u64, total_weekly_emissions: u64, week: u32) -> (r: u64)
        requires
            self.well_formed(),
            week >= self.spec_grace_weeks() ==> {
                let w = (week - 1) as u32;
                let pct = weight_pct(self.account_weight(account@, w), self.total_weight(w));
                &&& week >= 1
                &&& PCT_PRECISION * self.account_weight(account@, w) <= u64::MAX
                &&& self.total_weight(w) > 0
                &&& adjusted_fits(amount as int, previous_amount as int, total_weekly_emissions as int, pct)
            },
        ensures
            week < self.spec_grace_weeks() ==> r == amount,
            week >= self.spec_grace_weeks() ==> {
                let w = (week - 1) as u32;
                r == adjusted_amount(
                    amount as int,
                    previous_amount as int,
                    total_weekly_emissions as int,
                    weight_pct(self.account_weight(account@, w), self.total_weight(w)),
                )
            },
    {
        if week < self.max_boost_grace_weeks {
            return amount;
        }
        let adjusted_week = week - 1;
        let account_weight: u64 = match self.account_weekly_lock_pct.get(&(account, adjusted_week)) {
            Some(w) => *w,
            None => 0,
        };
        let total_weight: u64 = match self.total_weekly_weights.get(&adjusted_week) {
            Some(w) => *w,
            None => 1,
        };
        let pct = PCT_PRECISION * account_weight / total_weight;
        self.calculate_adjusted_amount(amount, previous_amount, total_weekly_emissions, pct)
    }

    /// The amount's share `pct` (in billionths), scaled by the share of the
    /// week's emissions that the previous amount was.
    pub fn calculate_adjusted_amount(&self, amount: u64, previous_amount: u64, total_weekly_emissions: u64, pct: u64) -> (r: u64)
        requires
            adjusted_fits(amount as int, previous_amount as int, total_weekly_emissions as int, pct as int),
        ensures
            r == adjusted_amount(amount as int, previous_amount as int, total_weekly_emissions as int, pct as int),
    {
        let base_amount = amount * pct / PCT_PRECISION;
        if total_weekly_emissions > 0 {
            let emission_factor = previous_amount * PCT_PRECISION / total_weekly_emissions;
            base_amount * emission_factor / PCT_PRECISION
        } else {
            base_amount
        }
    }

    /// Records `transaction` and gives the request to sign it by the locker.
    pub fn add_transaction(&mut self, transaction: Transaction) -> (r: TransactionToSign)
        requires
            old(self).well_formed(),
        ensures
            final(self).well_formed(),
            r.tx_bytes@ == encode_transaction(transaction),
            r.inputs_to_sign@.len() == 1,
            r.inputs_to_sign@[0].index == 0,
            r.inputs_to_sign@[0].signer@ == old(self).spec_locker(),
            final(self).spec_transactions() == old(self).spec_transactions().push(transaction),
            final(self).utxo_view() == old(self).utxo_view(),
            final(self).spec_locker() == old(self).spec_locker(),
            final(self).spec_grace_weeks() == old(self).spec_grace_weeks(),
            final(self).spec_lock_pct() == old(self).spec_lock_pct(),
            final(self).spec_total_weights() == old(self).spec_total_weights(),
    {
        let tx_bytes = serialize_transaction(&transaction);
        let mut inputs_to_sign: Vec<InputToSign> = Vec::new();
        inputs_to_sign.push(InputToSign { index: 0, signer: self.locker });
        self.transactions.push(transaction);
        TransactionToSign { tx_bytes, inputs_to_sign }
    }

    /// Records output `vout` of `tx` as unspent.
    pub fn add_utxo(&mut self, tx: &Transaction, vout: u32, value: u64, script_pubkey: Vec<u8>)
        requires
            old(self).well_formed(),
        ensures
            final(self).well_formed(),
            final(self).utxo_view() == old(self).utxo_view().insert((spec_txid(*tx), vout), (value, script_pubkey@)),
            final(self).spec_transactions() == old(self).spec_transactions(),
    {
        self.utxos.add_utxo(tx, vout, value, script_pubkey);
    }

    /// Spends `outpoint`; fails with code 502 when it is not unspent.
    pub fn spend_utxo(&mut self, outpoint: OutPoint) -> (r: Result<(), crate::arch::ProgramError>)
        requires
            old(self).well_formed(),
        ensures
            final(self).well_formed(),
            r is Ok <==> old(self).utxo_view().contains_key(outpoint.key_view()),
            r matches Err(e) ==> e == crate::arch::ProgramError::Custom(502),
            final(self).utxo_view() == old(self).utxo_view().remove(outpoint.key_view()),
            final(self).spec_transactions() == old(self).spec_transactions(),
    {
        if !self.utxos.contains(&outpoint) {
            return Err(crate::arch::ProgramError::Custom(502));
        }
        self.utxos.spend_utxo(outpoint);
        Ok(())
    }
}

} // verus!
