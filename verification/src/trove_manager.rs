//! A trove manager: the troves of one collateral, their stakes and rewards,
//! claimable surplus collateral, and the unspent outputs each owner holds.
use crate::arch::{InputToSign, TransactionToSign};
use crate::btc::{encode_transaction, serialize_transaction, OutPoint, Transaction, TxIn, TxOut, UtxoMeta};
use crate::types::{Pubkey, PubkeyMap, TableKey};
use vstd::prelude::*;

verus! {

/// Fixed-point precision (1e18) of reward integrals.
pub const REWARD_PRECISION: u64 = 1_000_000_000_000_000_000;

/// The life cycle of a trove.
#[derive(Clone, Copy, Debug, PartialEq, Eq, Structural)]
pub enum Status {
    NonExistent,
    Active,
    ClosedByOwner,
    ClosedByLiquidation,
    ClosedByRedemption,
}

/// A trove: its debt, collateral, stake, status and position.
#[derive(Clone, Copy, Debug, PartialEq, Eq, Structural)]
pub struct Trove {
    pub debt: u64,
    pub coll: u64,
    pub stake: u64,
    pub status: Status,
    pub array_index: u32,
    pub active_interest_index: u64,
}

/// An input to sign that spends an owner's output.
#[derive(Clone, Copy, Debug)]
pub struct UtxoInput {
    pub signer: Pubkey,
    pub txid: [u8; 32],
    pub vout: u32,
}

/// A value of the table, or zero for a missing key.
pub open spec fn or_zero(m: Map<Seq<u8>, u64>, k: Seq<u8>) -> u64 {
    if m.contains_key(k) { m[k] } else { 0 }
}

/// Whether the output list holds the output `vout` of `txid`.
pub open spec fn holds_output(list: Seq<UtxoMeta>, txid: Seq<u8>, vout: u32) -> bool {
    exists|i: int| 0 <= i < list.len() && (#[trigger] list[i]).txid@ == txid && list[i].vout == vout
}

/// The trove manager's state.
pub struct TroveManager {
    troves: PubkeyMap<Trove>,
    total_stakes: u64,
    total_active_collateral: u64,
    total_active_debt: u64,
    base_rate: u64,
    last_fee_operation_time: u64,
    owner: Pubkey,
    reward_integral: u64,
    reward_rate: u64,
    last_update: u64,
    period_finish: u64,
    reward_integral_for: PubkeyMap<u64>,
    stored_pending_reward: PubkeyMap<u64>,
    surplus_balances: PubkeyMap<u64>,
    paused: bool,
    sunsetting: bool,
    utxos: PubkeyMap<Vec<UtxoMeta>>,
}

impl TroveManager {
    pub closed spec fn well_formed(&self) -> bool {
        &&& self.troves.well_formed()
        &&& self.reward_integral_for.well_formed()
        &&& self.stored_pending_reward.well_formed()
        &&& self.surplus_balances.well_formed()
        &&& self.utxos.well_formed()
    }

    pub closed spec fn spec_troves(&self) -> Map<Seq<u8>, Trove> {
        self.troves.view()
    }

    pub closed spec fn spec_owner(&self) -> Seq<u8> {
        self.owner@
    }

    pub closed spec fn spec_paused(&self) -> bool {
        self.paused
    }

    pub closed spec fn spec_base_rate(&self) -> u64 {
        self.base_rate
    }

    pub closed spec fn spec_total_active_collateral(&self) -> u64 {
        self.total_active_collateral
    }

    pub closed spec fn spec_last_fee_operation_time(&self) -> u64 {
        self.last_fee_operation_time
    }

    pub closed spec fn spec_reward_integral(&self) -> u64 {
        self.reward_integral
    }

    pub closed spec fn spec_reward_integral_for(&self) -> Map<Seq<u8>, u64> {
        self.reward_integral_for.view()
    }

    pub closed spec fn spec_pending_rewards(&self) -> Map<Seq<u8>, u64> {
        self.stored_pending_reward.view()
    }

    pub closed spec fn spec_surplus(&self) -> Map<Seq<u8>, u64> {
        self.surplus_balances.view()
    }

    /// The outputs each owner holds, in the order they were added.
    pub closed spec fn spec_utxos(&self) -> Map<Seq<u8>, Seq<UtxoMeta>> {
        self.utxos.view().map_values(|v: Vec<UtxoMeta>| v@)
    }

    /// A trove manager with no troves, created at `now`.
    pub fn new(owner: Pubkey, now: u64) -> (r: Self)
        ensures
            r.well_formed(),
            r.spec_owner() == owner@,
            r.spec_troves() == Map::<Seq<u8>, Trove>::empty(),
            r.spec_last_fee_operation_time() == now,
            r.spec_reward_integral() == 0,
            r.spec_reward_integral_for() == Map::<Seq<u8>, u64>::empty(),
            r.spec_pending_rewards() == Map::<Seq<u8>, u64>::empty(),
            r.spec_surplus() == Map::<Seq<u8>, u64>::empty(),
            r.spec_utxos() == Map::<Seq<u8>, Seq<UtxoMeta>>::empty(),
            !r.spec_paused(),
            r.spec_base_rate() == 0,
            r.spec_total_active_collateral() == 0,
    {
        let r = Self {
            troves: PubkeyMap::new(),
            total_stakes: 0,
            total_active_collateral: 0,
            total_active_debt: 0,
            base_rate: 0,
            last_fee_operation_time: now,
            owner,
            reward_integral: 0,
            reward_rate: 0,
            last_update: 0,
            period_finish: 0,
            reward_integral_for: PubkeyMap::new(),
            stored_pending_reward: PubkeyMap::new(),
            surplus_balances: PubkeyMap::new(),
            paused: false,
            sunsetting: false,
            utxos: PubkeyMap::new(),
        };
        assert(r.spec_utxos() =~= Map::<Seq<u8>, Seq<UtxoMeta>>::empty());
        r
    }

    /// The owner pauses or unpauses; refused for any other caller.
    pub fn set_paused(&mut self, caller: &Pubkey, paused: bool) -> (r: Result<(), crate::arch::ProgramError>)
        ensures
            r is Ok <==> caller@ == old(self).spec_owner(),
            r is Ok ==> final(self).spec_paused() == paused,
            r is Err ==> r == Err::<(), crate::arch::ProgramError>(crate::arch::ProgramError::Custom(1)) && final(self).spec_paused() == old(self).spec_paused(),
            final(self).spec_troves() == old(self).spec_troves(),
            final(self).spec_owner() == old(self).spec_owner(),
            final(self).spec_base_rate() == old(self).spec_base_rate(),
            final(self).well_formed() == old(self).well_formed(),
    {
        if self.owner.same(caller) {
            self.paused = paused;
            Ok(())
        } else {
            Err(crate::arch::ProgramError::Custom(1))
        }
    }

    /// The owner raises the base rate by `adjustment`, saturating at the
    /// largest `u64`; refused for any other caller.
    pub fn adjust_base_rate(&mut self, caller: &Pubkey, adjustment: u64) -> (r: Result<(), String>)
        ensures
            r is Ok <==> caller@ == old(self).spec_owner(),
            r is Ok ==> final(self).spec_base_rate() == if old(self).spec_base_rate() + adjustment > u64::MAX {
                u64::MAX as int
            } else {
                old(self).spec_base_rate() + adjustment
            },
            r matches Err(e) ==> e@ == "Unauthorized: caller is not the owner"@ && final(self).spec_base_rate() == old(self).spec_base_rate(),
            final(self).spec_troves() == old(self).spec_troves(),
            final(self).spec_owner() == old(self).spec_owner(),
            final(self).spec_paused() == old(self).spec_paused(),
            final(self).well_formed() == old(self).well_formed(),
    {
        if self.owner.same(caller) {
            self.base_rate = self.base_rate.saturating_add(adjustment);
            Ok(())
        } else {
            Err("Unauthorized: caller is not the owner".to_string())
        }
    }

    /// Opens or replaces the trove of `borrower`.
    pub fn set_trove(&mut self, borrower: Pubkey, trove: Trove)
        requires
            old(self).well_formed(),
        ensures
            final(self).well_formed(),
            final(self).spec_troves() == old(self).spec_troves().insert(borrower@, trove),
            final(self).spec_total_active_collateral() == old(self).spec_total_active_collateral(),
            final(self).spec_pending_rewards() == old(self).spec_pending_rewards(),
            final(self).spec_reward_integral_for() == old(self).spec_reward_integral_for(),
            final(self).spec_reward_integral() == old(self).spec_reward_integral(),
            final(self).spec_surplus() == old(self).spec_surplus(),
    {
        self.troves.insert(borrower, trove);
    }

    /// Adds `amount` to the collateral of `borrower`'s trove and to the total.
    pub fn add_collateral(&mut self, borrower: &Pubkey, amount: u64)
        requires
            old(self).well_formed(),
            old(self).spec_troves().contains_key(borrower@),
            old(self).spec_troves()[borrower@].coll + amount <= u64::MAX,
            old(self).spec_total_active_collateral() + amount <= u64::MAX,
        ensures
            final(self).well_formed(),
            final(self).spec_troves() == old(self).spec_troves().insert(
                borrower@,
                Trove { coll: (old(self).spec_troves()[borrower@].coll + amount) as u64, ..old(self).spec_troves()[borrower@] },
            ),
            final(self).spec_total_active_collateral() == old(self).spec_total_active_collateral() + amount,
            final(self).spec_pending_rewards() == old(self).spec_pending_rewards(),
            final(self).spec_surplus() == old(self).spec_surplus(),
    {
        let trove = match self.troves.get(borrower) {
            Some(t) => *t,
            None => Trove { debt: 0, coll: 0, stake: 0, status: Status::NonExistent, array_index: 0, active_interest_index: 0 },
        };
        self.troves.insert(*borrower, Trove { coll: trove.coll + amount, ..trove });
        self.total_active_collateral = self.total_active_collateral + amount;
    }

    /// Records surplus collateral that `account` may claim.
    pub fn set_surplus(&mut self, account: Pubkey, amount: u64)
        requires
            old(self).well_formed(),
        ensures
            final(self).well_formed(),
            final(self).spec_surplus() == old(self).spec_surplus().insert(account@, amount),
            final(self).spec_troves() == old(self).spec_troves(),
    {
        self.surplus_balances.insert(account, amount);
    }

    /// Pays out the surplus collateral of `receiver`, clearing it; refused
    /// when there is none.
    pub fn claim_collateral(&mut self, receiver: &Pubkey) -> (r: Result<u64, String>)
        requires
            old(self).well_formed(),
        ensures
            final(self).well_formed(),
            r is Ok <==> or_zero(old(self).spec_surplus(), receiver@) > 0,
            r is Ok ==> r == Ok::<u64, String>(or_zero(old(self).spec_surplus(), receiver@))
                && final(self).spec_surplus() == old(self).spec_surplus().insert(receiver@, 0),
            r matches Err(e) ==> e@ == "No collateral available to claim"@ && final(self).spec_surplus() == old(self).spec_surplus(),
            final(self).spec_troves() == old(self).spec_troves(),
            final(self).spec_pending_rewards() == old(self).spec_pending_rewards(),
    {
        let claimable_coll = match self.surplus_balances.get(receiver) {
            Some(c) => *c,
            None => 0,
        };
        if claimable_coll > 0 {
            self.surplus_balances.insert(*receiver, 0);
            Ok(claimable_coll)
        } else {
            Err("No collateral available to claim".to_string())
        }
    }

    /// The pending reward of `account` after accruing its stake's share of
    /// the reward integral since its last update.
    pub open spec fn accrued_reward(&self, account: Seq<u8>) -> int {
        or_zero(self.spec_pending_rewards(), account) + (self.spec_troves()[account].stake * (self.spec_reward_integral()
            - or_zero(self.spec_reward_integral_for(), account))) / (REWARD_PRECISION as int)
    }

    /// Accruing rewards for `account` computes without overflow.
    pub open spec fn rewards_defined(&self, account: Seq<u8>) -> bool {
        self.spec_reward_integral() > or_zero(self.spec_reward_integral_for(), account) ==> {
            &&& self.spec_troves().contains_key(account)
            &&& self.spec_troves()[account].stake * (self.spec_reward_integral() - or_zero(
                self.spec_reward_integral_for(),
                account,
            )) <= u64::MAX
            &&& self.accrued_reward(account) <= u64::MAX
        }
    }

    /// Accrues the reward of `account`: when the reward integral has grown
    /// since its last update, its pending reward grows by its stake times the
    /// growth (scaled down by 1e18), its integral catches up, and the new
    /// pending reward is returned; otherwise nothing changes and zero is returned.
    pub fn apply_pending_rewards(&mut self, account: &Pubkey) -> (r: Result<u64, String>)
        requires
            old(self).well_formed(),
            old(self).rewards_defined(account@),
        ensures
            final(self).well_formed(),
            old(self).spec_reward_integral() > or_zero(old(self).spec_reward_integral_for(), account@) ==> {
                &&& r == Ok::<u64, String>(old(self).accrued_reward(account@) as u64)
                &&& final(self).spec_pending_rewards() == old(self).spec_pending_rewards().insert(
                    account@,
                    old(self).accrued_reward(account@) as u64,
                )
                &&& final(self).spec_reward_integral_for() == old(self).spec_reward_integral_for().insert(
                    account@,
                    old(self).spec_reward_integral(),
                )
            },
            old(self).spec_reward_integral() <= or_zero(old(self).spec_reward_integral_for(), account@) ==> {
                &&& r == Ok::<u64, String>(0)
                &&& final(self).spec_pending_rewards() == old(self).spec_pending_rewards()
                &&& final(self).spec_reward_integral_for() == old(self).spec_reward_integral_for()
            },
            final(self).spec_troves() == old(self).spec_troves(),
            final(self).spec_reward_integral() == old(self).spec_reward_integral(),
            final(self).spec_surplus() == old(self).spec_surplus(),
    {
        let reward_integral = self.reward_integral;
        let reward_integral_for = match self.reward_integral_for.get(account) {
            Some(v) => *v,
            None => 0,
        };
        if reward_integral > reward_integral_for {
            let pending_reward = match self.stored_pending_reward.get(account) {
                Some(v) => *v,
                None => 0,
            };
            let stake = match self.troves.get(account) {
                Some(t) => t.stake,
                None => 0,
            };
            let new_reward = pending_reward + (stake * (reward_integral - reward_integral_for)) / REWARD_PRECISION;
            self.stored_pending_reward.insert(*account, new_reward);
            self.reward_integral_for.insert(*account, reward_integral);
            Ok(new_reward)
        } else {
            Ok(0)
        }
    }

    /// Pays out the accrued reward of `account`, clearing it; refused when
    /// it is zero.
    pub fn claim_reward(&mut self, account: &Pubkey) -> (r: Result<u64, String>)
        requires
            old(self).well_formed(),
            old(self).rewards_defined(account@),
        ensures
            final(self).well_formed(),
            ({
                let amount = if old(self).spec_reward_integral() > or_zero(old(self).spec_reward_integral_for(), account@) {
                    old(self).accrued_reward(account@)
                } else {
                    0
                };
                &&& r is Ok <==> amount > 0
                &&& r is Ok ==> r == Ok::<u64, String>(amount as u64)
                    && final(self).spec_pending_rewards()[account@] == 0
                    && final(self).spec_pending_rewards().contains_key(account@)
                &&& r matches Err(e) ==> e@ == "No rewards available to claim"@
            }),
            final(self).spec_troves() == old(self).spec_troves(),
            final(self).spec_surplus() == old(self).spec_surplus(),
    {
        let amount = match self.apply_pending_rewards(account) {
            Ok(a) => a,
            Err(e) => {
                return Err(e);
            },
        };
        if amount > 0 {
            self.stored_pending_reward.insert(*account, 0);
            Ok(amount)
        } else {
            Err("No rewards available to claim".to_string())
        }
    }

    /// Records an output held by `owner`, after those it already holds.
    pub fn add_utxo(&mut self, owner: Pubkey, utxo: UtxoMeta)
        requires
            old(self).well_formed(),
        ensures
            final(self).well_formed(),
            final(self).spec_utxos() == old(self).spec_utxos().insert(
                owner@,
                if old(self).spec_utxos().contains_key(owner@) {
                    old(self).spec_utxos()[owner@].push(utxo)
                } else {
                    seq![utxo]
                },
            ),
            final(self).spec_troves() == old(self).spec_troves(),
    {
        let mut list = match self.utxos.remove(&owner) {
            Some(l) => l,
            None => Vec::new(),
        };
        list.push(utxo);
        self.utxos.insert(owner, list);
        proof {
            let expected = if old(self).spec_utxos().contains_key(owner@) {
                old(self).spec_utxos()[owner@].push(utxo)
            } else {
                seq![utxo]
            };
            assert(self.spec_utxos() =~= old(self).spec_utxos().insert(owner@, expected));
        }
    }

    /// The position of output `vout` of `txid` in `owner`'s list.
    fn find_utxo(list: &Vec<UtxoMeta>, txid: &[u8; 32], vout: u32) -> (r: Option<usize>)
        ensures
            match r {
                Some(i) => i < list@.len() && list@[i as int].txid@ == txid@ && list@[i as int].vout == vout
                    && forall|j: int| 0 <= j < i ==> !((#[trigger] list@[j]).txid@ == txid@ && list@[j].vout == vout),
                None => !holds_output(list@, txid@, vout),
            },
    {
        let target = OutPoint::new(*txid, vout);
        let mut i: usize = 0;
        while i < list.len()
            invariant
                i <= list@.len(),
                target.txid@ == txid@,
                target.vout == vout,
                forall|j: int| 0 <= j < i ==> !((#[trigger] list@[j]).txid@ == txid@ && list@[j].vout == vout),
            decreases list@.len() - i,
        {
            let here = OutPoint::new(list[i].txid, list[i].vout);
            if here.same_key(&target) {
                return Some(i);
            }
            i = i + 1;
        }
        None
    }

    /// Spends output `vout` of `txid` held by `owner`. Refused when the owner
    /// holds no outputs, or not that one.
    pub fn spend_utxo(&mut self, owner: &Pubkey, txid: [u8; 32], vout: u32) -> (r: Result<(), String>)
        requires
            old(self).well_formed(),
        ensures
            final(self).well_formed(),
            !old(self).spec_utxos().contains_key(owner@) ==> (r matches Err(e) && e@ == "Owner has no UTXOs"@),
            old(self).spec_utxos().contains_key(owner@) ==> {
                let list = old(self).spec_utxos()[owner@];
                &&& r is Ok <==> holds_output(list, txid@, vout)
                &&& r matches Err(e) ==> e@ == "UTXO not found"@
                &&& r is Ok ==> exists|i: int|
                    0 <= i < list.len() && list[i].txid@ == txid@ && list[i].vout == vout
                        && (forall|j: int| 0 <= j < i ==> !((#[trigger] list[j]).txid@ == txid@ && list[j].vout == vout))
                        && final(self).spec_utxos() == old(self).spec_utxos().insert(owner@, list.remove(i))
            },
            r is Err ==> final(self).spec_utxos() == old(self).spec_utxos(),
            final(self).spec_troves() == old(self).spec_troves(),
    {
        match self.utxos.remove(owner) {
            Some(mut list) => {
                match Self::find_utxo(&list, &txid, vout) {
                    Some(pos) => {
                        let ghost before = list@;
                        list.remove(pos);
                        self.utxos.insert(*owner, list);
                        assert(self.spec_utxos() =~= old(self).spec_utxos().insert(owner@, before.remove(pos as int)));
                        assert(before == old(self).spec_utxos()[owner@]);
                        assert(before[pos as int].txid@ == txid@);
                        assert(holds_output(before, txid@, vout));
                        Ok(())
                    },
                    None => {
                        self.utxos.insert(*owner, list);
                        assert(self.spec_utxos() =~= old(self).spec_utxos());
                        Err("UTXO not found".to_string())
                    },
                }
            },
            None => {
                assert(self.spec_utxos() =~= old(self).spec_utxos());
                Err("Owner has no UTXOs".to_string())
            },
        }
    }

    /// Whether `owner` holds output `vout` of `txid`.
    pub fn validate_utxo(&self, owner: &Pubkey, txid: [u8; 32], vout: u32) -> (r: bool)
        requires
            self.well_formed(),
        ensures
            r == (self.spec_utxos().contains_key(owner@) && holds_output(self.spec_utxos()[owner@], txid@, vout)),
    {
        match self.utxos.get(owner) {
            Some(list) => Self::find_utxo(list, &txid, vout).is_some(),
            None => false,
        }
    }

    /// Checks a transaction to sign by its first input: accepted when the
    /// input's signer holds the output it spends, refused otherwise.
    pub fn process_bitcoin_transaction(&self, inputs_to_sign: &Vec<UtxoInput>) -> (r: Result<(), String>)
        requires
            self.well_formed(),
            inputs_to_sign@.len() > 0,
        ensures
            ({
                let input = inputs_to_sign@[0];
                r is Ok <==> (self.spec_utxos().contains_key(input.signer@) && holds_output(
                    self.spec_utxos()[input.signer@],
                    input.txid@,
                    input.vout,
                ))
            }),
            r matches Err(e) ==> e@ == "Invalid UTXO ownership"@,
    {
        let input = &inputs_to_sign[0];
        if !self.validate_utxo(&input.signer, input.txid, input.vout) {
            return Err("Invalid UTXO ownership".to_string());
        }
        Ok(())
    }

    /// The transaction spending `inputs` into `outputs` (version 1, no lock
    /// time), serialized, with every input to be signed by the owner.
    pub fn create_bitcoin_transaction(&self, inputs: Vec<TxIn>, outputs: Vec<TxOut>) -> (r: TransactionToSign)
        requires
            inputs@.len() <= u32::MAX,
        ensures
            r.tx_bytes@ == encode_transaction(Transaction { version: 1, lock_time: 0, input: inputs, output: outputs }),
            r.inputs_to_sign@.len() == inputs@.len(),
            forall|i: int| 0 <= i < inputs@.len() ==> (#[trigger] r.inputs_to_sign@[i]).index == i
                && r.inputs_to_sign@[i].signer@ == self.spec_owner(),
    {
        let n = inputs.len();
        let tx = Transaction { version: 1, lock_time: 0, input: inputs, output: outputs };
        let tx_bytes = serialize_transaction(&tx);
        let mut inputs_to_sign: Vec<InputToSign> = Vec::new();
        let mut i: usize = 0;
        while i < n
            invariant
                i <= n,
                n <= u32::MAX,
                inputs_to_sign@.len() == i,
                forall|j: int| 0 <= j < i ==> (#[trigger] inputs_to_sign@[j]).index == j
                    && inputs_to_sign@[j].signer@ == self.owner@,
            decreases n - i,
        {
            inputs_to_sign.push(InputToSign { index: i as u32, signer: self.owner });
            i = i + 1;
        }
        TransactionToSign { tx_bytes, inputs_to_sign }
    }
}

} // verus!
