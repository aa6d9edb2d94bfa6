//! Liquidation of troves in enabled trove managers, and the fixed amounts the
//! liquidation math assigns.
use crate::btc::{encode_transaction, new_p2pkh, p2pkh_script, serialize_transaction, OutPoint, Transaction, TxIn, TxOut, UtxoSet, spec_txid};
use crate::types::{clone_bytes, Pubkey, Table, TableKey};
use vstd::prelude::*;

verus! {

/// The debt a liquidation removes.
pub fn calculate_debt_reduction() -> (r: u64)
    ensures
        r == 100,
{
    100
}

/// The collateral a liquidation removes.
pub fn calculate_collateral_reduction() -> (r: u64)
    ensures
        r == 50,
{
    50
}

/// The collateral paid as gas compensation: 1% of `coll`.
pub fn calculate_coll_gas_compensation(coll: u64) -> (r: u64)
    ensures
        r == coll / 100,
{
    coll / 100
}

/// The debt paid as gas compensation.
pub fn calculate_debt_gas_compensation() -> (r: u64)
    ensures
        r == 10,
{
    10
}

/// A liquidation: the borrower and the debt and collateral it removes.
#[derive(Clone, Copy, Debug)]
pub struct Liquidation {
    pub borrower: Pubkey,
    pub liquidated_debt: u64,
    pub liquidated_coll: u64,
}

/// A liquidation transaction: version 1, no lock time, spending one held
/// output (empty unlocking script, final sequence) into one output that pays
/// `value` to the borrower's key hash.
pub open spec fn is_liquidation_transaction(tx: Transaction, held: Map<(Seq<u8>, u32), (u64, Seq<u8>)>, value: u64, borrower: Seq<u8>) -> bool {
    &&& tx.version == 1
    &&& tx.lock_time == 0
    &&& tx.input@.len() == 1
    &&& held.contains_key(tx.input@[0].previous_output.key_view())
    &&& tx.input@[0].script_sig@.len() == 0
    &&& tx.input@[0].sequence == 0xFFFF_FFFF
    &&& tx.output@.len() == 1
    &&& tx.output@[0].value == value
    &&& tx.output@[0].script_pubkey@ == p2pkh_script(borrower)
}

/// An input the runtime must sign: the output it spends, and the locking
/// script and value it signs for.
#[derive(Clone, Debug)]
pub struct SpentInput {
    pub previous_output: OutPoint,
    pub script_pubkey: Vec<u8>,
    pub value: u64,
}

/// A serialized liquidation transaction and the inputs the runtime must sign.
#[derive(Clone, Debug)]
pub struct LiquidationToSign {
    pub tx_bytes: Vec<u8>,
    pub inputs_to_sign: Vec<SpentInput>,
}

/// `to_sign` asks for `tx` to be signed: its encoding, and one input naming
/// the output `tx` spends with the script and value of `tx`'s output.
pub open spec fn signs_liquidation(to_sign: LiquidationToSign, tx: Transaction) -> bool {
    &&& to_sign.tx_bytes@ == encode_transaction(tx)
    &&& to_sign.inputs_to_sign@.len() == 1
    &&& to_sign.inputs_to_sign@[0].previous_output == tx.input@[0].previous_output
    &&& to_sign.inputs_to_sign@[0].script_pubkey@ == tx.output@[0].script_pubkey@
    &&& to_sign.inputs_to_sign@[0].value == tx.output@[0].value
}

/// The liquidation manager: the trove managers it may liquidate in, the
/// factory that enables them, and the outputs it spends to record liquidations.
pub struct LiquidationManager {
    stability_pool: String,
    sorted_troves: String,
    borrower_operations: String,
    factory: Pubkey,
    enabled_trove_managers: Table<String, bool>,
    utxo_set: UtxoSet,
}

impl LiquidationManager {
    pub closed spec fn well_formed(&self) -> bool {
        self.enabled_trove_managers.well_formed() && self.utxo_set.well_formed()
    }

    /// Whether `tm` is enabled.
    pub closed spec fn enabled(&self, tm: Seq<char>) -> bool {
        self.enabled_trove_managers.view().contains_key(tm) && self.enabled_trove_managers.view()[tm]
    }

    pub closed spec fn spec_factory(&self) -> Seq<u8> {
        self.factory@
    }

    pub closed spec fn utxo_view(&self) -> Map<(Seq<u8>, u32), (u64, Seq<u8>)> {
        self.utxo_set.view()
    }

    /// A manager with no trove manager enabled and no outputs.
    pub fn new(factory: Pubkey) -> (r: Self)
        ensures
            r.well_formed(),
            r.spec_factory() == factory@,
            forall|tm: Seq<char>| !r.enabled(tm),
            r.utxo_view() == Map::<(Seq<u8>, u32), (u64, Seq<u8>)>::empty(),
    {
        LiquidationManager {
            stability_pool: String::new(),
            sorted_troves: String::new(),
            borrower_operations: String::new(),
            factory,
            enabled_trove_managers: Table::new(),
            utxo_set: UtxoSet::new(),
        }
    }

    /// Enables liquidations in `trove_manager`; others stay as they were.
    pub fn enable_trove_manager(&mut self, trove_manager: String)
        requires
            old(self).well_formed(),
        ensures
            final(self).well_formed(),
            final(self).enabled(trove_manager@),
            forall|tm: Seq<char>| tm != trove_manager@ ==> final(self).enabled(tm) == old(self).enabled(tm),
            final(self).spec_factory() == old(self).spec_factory(),
            final(self).utxo_view() == old(self).utxo_view(),
    {
        self.enabled_trove_managers.insert(trove_manager, true);
    }

    /// Whether `trove_manager` is enabled.
    pub fn is_enabled(&self, trove_manager: &String) -> (r: bool)
        requires
            self.well_formed(),
        ensures
            r == self.enabled(trove_manager@),
    {
        match self.enabled_trove_managers.get(trove_manager) {
            Some(b) => *b,
            None => false,
        }
    }

    /// Records output `vout` of `tx` as an output the manager may spend.
    pub fn add_utxo(&mut self, tx: &Transaction, vout: u32, value: u64, script_pubkey: Vec<u8>)
        requires
            old(self).well_formed(),
        ensures
            final(self).well_formed(),
            final(self).utxo_view() == old(self).utxo_view().insert((spec_txid(*tx), vout), (value, script_pubkey@)),
            forall|tm: Seq<char>| final(self).enabled(tm) == old(self).enabled(tm),
            final(self).spec_factory() == old(self).spec_factory(),
    {
        self.utxo_set.add_utxo(tx, vout, value, script_pubkey);
    }

    /// Liquidates `borrower` in `trove_manager`: nothing when that trove
    /// manager is not enabled; otherwise the liquidation of the fixed debt and
    /// collateral reductions, the transaction that records it, and the
    /// request to sign its input.
    pub fn liquidate(&self, trove_manager: &String, borrower: Pubkey) -> (r: Option<(Liquidation, Transaction, LiquidationToSign)>)
        requires
            self.well_formed(),
            self.enabled(trove_manager@) ==> self.utxo_view().dom().len() > 0,
        ensures
            r is None <==> !self.enabled(trove_manager@),
            r matches Some((l, tx, to_sign)) ==> {
                &&& l.borrower@ == borrower@
                &&& l.liquidated_debt == 100
                &&& l.liquidated_coll == 50
                &&& is_liquidation_transaction(tx, self.utxo_view(), 150, borrower@)
                &&& signs_liquidation(to_sign, tx)
            },
    {
        if !self.is_enabled(trove_manager) {
            return None;
        }

        let debt_reduction = calculate_debt_reduction();
        let collateral_reduction = calculate_collateral_reduction();

        let liquidation = Liquidation {
            borrower,
            liquidated_debt: debt_reduction,
            liquidated_coll: collateral_reduction,
        };

        let (tx, to_sign) = self.create_liquidation_transaction(&borrower, debt_reduction, collateral_reduction);
        Some((liquidation, tx, to_sign))
    }

    /// The transaction recording a liquidation: it spends one of the
    /// manager's outputs into one output of `debt_reduction +
    /// collateral_reduction` paying the borrower, and the request to sign
    /// that input for the output's script and value.
    fn create_liquidation_transaction(&self, borrower: &Pubkey, debt_reduction: u64, collateral_reduction: u64) -> (r: (Transaction, LiquidationToSign))
        requires
            self.well_formed(),
            self.utxo_view().dom().len() > 0,
            debt_reduction + collateral_reduction <= u64::MAX,
        ensures
            is_liquidation_transaction(r.0, self.utxo_view(), (debt_reduction + collateral_reduction) as u64, borrower@),
            signs_liquidation(r.1, r.0),
    {
        let previous_output = match self.utxo_set.first_outpoint() {
            Some(o) => o,
            None => OutPoint::new([0u8; 32], 0),
        };
        let mut input: Vec<TxIn> = Vec::new();
        input.push(TxIn { previous_output, script_sig: Vec::new(), sequence: 0xFFFF_FFFF });
        let value = debt_reduction + collateral_reduction;
        let script_pubkey = new_p2pkh(borrower.bytes.as_slice());
        let signed_script = clone_bytes(&script_pubkey);
        let mut output: Vec<TxOut> = Vec::new();
        output.push(TxOut { value, script_pubkey });
        let tx = Transaction { version: 1, lock_time: 0, input, output };
        let tx_bytes = serialize_transaction(&tx);
        let mut inputs_to_sign: Vec<SpentInput> = Vec::new();
        inputs_to_sign.push(SpentInput { previous_output, script_pubkey: signed_script, value });
        (tx, LiquidationToSign { tx_bytes, inputs_to_sign })
    }

    /// Access check: succeeds for the factory or a delegate it approved,
    /// and the factory's only approved delegate is itself.
    pub fn ensure_factory_or_approved(&self, caller: &Pubkey) -> (r: Result<(), &'static str>)
        ensures
            r is Ok <==> caller@ == self.spec_factory(),
            r matches Err(e) ==> e@ == "Unauthorized access"@,
    {
        if caller.same(&self.factory) || self.is_approved_delegate(&self.factory, caller) {
            Ok(())
        } else {
            Err("Unauthorized access")
        }
    }

    /// Whether `caller` may act for `factory`: only the factory itself may.
    fn is_approved_delegate(&self, factory: &Pubkey, caller: &Pubkey) -> (r: bool)
        ensures
            r == (caller@ == factory@),
    {
        caller.same(factory)
    }
}

} // verus!
