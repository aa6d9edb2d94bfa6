//! Bitcoin transactions and unspent outputs as the contracts keep them: the
//! consensus encoding and transaction ids (computed by the `bitcoin` crate), and
//! sets of unspent outputs.
use crate::codec::push_all;
use bitcoin::{Transaction as BitcoinTransaction, TxIn as BitcoinTxIn, TxOut as BitcoinTxOut};
use crate::types::{clone_bytes, Table, TableKey};
use vstd::prelude::*;

verus! {

/// A reference to an output of a transaction: its id and output index.
#[derive(Clone, Copy, Debug)]
pub struct OutPoint {
    pub txid: [u8; 32],
    pub vout: u32,
}

impl OutPoint {
    pub fn new(txid: [u8; 32], vout: u32) -> (r: Self)
        ensures
            r.txid@ == txid@,
            r.vout == vout,
    {
        OutPoint { txid, vout }
    }
}

impl TableKey for OutPoint {
    type KeyView = (Seq<u8>, u32);

    open spec fn key_view(&self) -> (Seq<u8>, u32) {
        (self.txid@, self.vout)
    }

    fn same_key(&self, other: &Self) -> (r: bool) {
        if self.vout != other.vout {
            return false;
        }
        let mut i: usize = 0;
        while i < 32
            invariant
                i <= 32,
                self.txid@.len() == 32,
                other.txid@.len() == 32,
                forall|j: int| 0 <= j < i ==> self.txid@[j] == other.txid@[j],
            decreases 32 - i,
        {
            if self.txid[i] != other.txid[i] {
                return false;
            }
            i = i + 1;
        }
        assert(self.txid@ =~= other.txid@);
        true
    }
}

/// A transaction input: the output it spends, its unlocking script and its sequence.
#[derive(Clone, Debug)]
pub struct TxIn {
    pub previous_output: OutPoint,
    pub script_sig: Vec<u8>,
    pub sequence: u32,
}

/// A transaction output: its value in satoshis and its locking script.
#[derive(Clone, Debug)]
pub struct TxOut {
    pub value: u64,
    pub script_pubkey: Vec<u8>,
}

/// A transaction without witness data.
#[derive(Clone, Debug)]
pub struct Transaction {
    pub version: i32,
    pub lock_time: u32,
    pub input: Vec<TxIn>,
    pub output: Vec<TxOut>,
}

/// An unspent output held by a contract.
#[derive(Clone, Debug)]
pub struct UtxoMeta {
    pub txid: [u8; 32],
    pub vout: u32,
    pub value: u64,
    pub script_pubkey: Vec<u8>,
}

/// A transaction input as plain values: the spent output's txid and
/// index, the unlocking script and the sequence.
pub open spec fn txin_view(i: TxIn) -> (Seq<u8>, u32, Seq<u8>, u32) {
    (i.previous_output.txid@, i.previous_output.vout, i.script_sig@, i.sequence)
}

/// A transaction output as plain values: its value and locking script.
pub open spec fn txout_view(o: TxOut) -> (u64, Seq<u8>) {
    (o.value, o.script_pubkey@)
}

/// A transaction as plain values: version, lock time, inputs and outputs.
pub open spec fn tx_view(tx: Transaction) -> (i32, u32, Seq<(Seq<u8>, u32, Seq<u8>, u32)>, Seq<(u64, Seq<u8>)>) {
    (
        tx.version,
        tx.lock_time,
        tx.input@.map_values(|i: TxIn| txin_view(i)),
        tx.output@.map_values(|o: TxOut| txout_view(o)),
    )
}

/// The consensus encoding of a transaction, as `bitcoin::consensus::serialize`
/// writes it.
pub uninterp spec fn consensus_encoding(tx: (i32, u32, Seq<(Seq<u8>, u32, Seq<u8>, u32)>, Seq<(u64, Seq<u8>)>)) -> Seq<
    u8,
>;

/// The id of a transaction, as `bitcoin::Transaction::compute_txid` gives it.
pub uninterp spec fn transaction_id(tx: (i32, u32, Seq<(Seq<u8>, u32, Seq<u8>, u32)>, Seq<(u64, Seq<u8>)>)) -> Seq<u8>;

/// The consensus encoding of a transaction.
pub open spec fn encode_transaction(tx: Transaction) -> Seq<u8> {
    consensus_encoding(tx_view(tx))
}

/// The encoding of `tx` with `extra` appended to its inputs.
pub open spec fn extended_encoding(tx: Transaction, extra: TxIn) -> Seq<u8> {
    consensus_encoding((tx.version, tx.lock_time, tx_view(tx).2.push(txin_view(extra)), tx_view(tx).3))
}

/// A copy of a transaction input.
pub fn clone_txin(input: &TxIn) -> (r: TxIn)
    ensures
        r.previous_output == input.previous_output,
        r.script_sig@ == input.script_sig@,
        r.sequence == input.sequence,
{
    TxIn { previous_output: input.previous_output, script_sig: clone_bytes(&input.script_sig), sequence: input.sequence }
}

#[verifier::external_type_specification]
#[verifier::external_body]
pub struct ExBitcoinTransaction(BitcoinTransaction);

#[verifier::external_type_specification]
#[verifier::external_body]
pub struct ExBitcoinTxIn(BitcoinTxIn);

#[verifier::external_type_specification]
#[verifier::external_body]
pub struct ExBitcoinTxOut(BitcoinTxOut);

/// The `bitcoin` crate's value of an input, with an empty witness; a
/// conversion field by field, with no contract.
#[verifier::external_body]
fn to_bitcoin_input(i: &TxIn) -> BitcoinTxIn {
    BitcoinTxIn {
        previous_output: bitcoin::OutPoint {
            txid: <bitcoin::Txid as bitcoin::hashes::Hash>::from_byte_array(i.previous_output.txid),
            vout: i.previous_output.vout,
        },
        script_sig: bitcoin::ScriptBuf::from_bytes(i.script_sig.clone()),
        sequence: bitcoin::Sequence(i.sequence),
        witness: bitcoin::Witness::new(),
    }
}

/// The `bitcoin` crate's value of an output; a conversion field by field,
/// with no contract.
#[verifier::external_body]
fn to_bitcoin_output(o: &TxOut) -> BitcoinTxOut {
    BitcoinTxOut {
        value: bitcoin::Amount::from_sat(o.value),
        script_pubkey: bitcoin::ScriptBuf::from_bytes(o.script_pubkey.clone()),
    }
}

/// The `bitcoin` crate's value of a transaction; a conversion field by
/// field, with no contract.
#[verifier::external_body]
fn to_bitcoin(tx: &Transaction) -> BitcoinTransaction {
    BitcoinTransaction {
        version: bitcoin::transaction::Version(tx.version),
        lock_time: bitcoin::absolute::LockTime::from_consensus(tx.lock_time),
        input: tx.input.iter().map(to_bitcoin_input).collect(),
        output: tx.output.iter().map(to_bitcoin_output).collect(),
    }
}

/// Encodes a transaction with `bitcoin::consensus::serialize`; the contract
/// claims only that the bytes are the encoding of the transaction's plain
/// values, named `consensus_encoding`.
#[verifier::external_body]
pub fn serialize_transaction(tx: &Transaction) -> (r: Vec<u8>)
    ensures
        r@ == consensus_encoding(tx_view(*tx)),
{
    bitcoin::consensus::serialize(&to_bitcoin(tx))
}

/// RIPEMD-160 of SHA-256 of the given bytes.
pub uninterp spec fn hash160(data: Seq<u8>) -> Seq<u8>;

/// HASH160 digest, computed by `bitcoin::hashes::hash160::Hash::hash`; the
/// contract claims only that the digest is a function of the input bytes and
/// has 20 bytes.
#[verifier::external_body]
fn hash160_digest(data: &[u8]) -> (r: [u8; 20])
    ensures
        r@ == hash160(data@),
        r@.len() == 20,
{
    <bitcoin::hashes::hash160::Hash as bitcoin::hashes::Hash>::to_byte_array(
        <bitcoin::hashes::hash160::Hash as bitcoin::hashes::Hash>::hash(data),
    )
}

/// The pay-to-public-key-hash locking script for a key.
pub open spec fn p2pkh_script(key: Seq<u8>) -> Seq<u8> {
    seq![0x76u8, 0xa9u8, 0x14u8] + hash160(key) + seq![0x88u8, 0xacu8]
}

/// Builds the pay-to-public-key-hash locking script for a key.
pub fn new_p2pkh(key: &[u8]) -> (r: Vec<u8>)
    ensures
        r@ == p2pkh_script(key@),
{
    let h = hash160_digest(key);
    let mut script: Vec<u8> = Vec::new();
    script.push(0x76);
    script.push(0xa9);
    script.push(0x14);
    push_all(&mut script, h.as_slice());
    script.push(0x88);
    script.push(0xac);
    assert(script@ =~= p2pkh_script(key@));
    script
}

/// The transaction id of a transaction.
pub open spec fn spec_txid(tx: Transaction) -> Seq<u8> {
    transaction_id(tx_view(tx))
}

/// Computes the id of a transaction with `bitcoin::Transaction::compute_txid`;
/// the contract claims only that the id is that of the transaction's plain
/// values, named `transaction_id`.
#[verifier::external_body]
pub fn txid(tx: &Transaction) -> (r: [u8; 32])
    ensures
        r@ == transaction_id(tx_view(*tx)),
{
    <bitcoin::Txid as bitcoin::hashes::Hash>::to_byte_array(to_bitcoin(tx).compute_txid())
}

/// The value and locking script of an unspent output.
pub open spec fn utxo_view(u: UtxoMeta) -> (u64, Seq<u8>) {
    (u.value, u.script_pubkey@)
}

/// A set of unspent outputs, each with its value and locking script.
pub struct UtxoSet {
    pub utxos: Table<OutPoint, UtxoMeta>,
}

impl UtxoSet {
    pub open spec fn well_formed(&self) -> bool {
        self.utxos.well_formed()
    }

    /// The unspent outputs: for each outpoint, its value and locking script.
    pub open spec fn view(&self) -> Map<(Seq<u8>, u32), (u64, Seq<u8>)> {
        self.utxos.view().map_values(|u: UtxoMeta| utxo_view(u))
    }

    pub fn new() -> (r: Self)
        ensures
            r.well_formed(),
            r.view() == Map::<(Seq<u8>, u32), (u64, Seq<u8>)>::empty(),
    {
        let r = UtxoSet { utxos: Table::new() };
        assert(r.view() =~= Map::<(Seq<u8>, u32), (u64, Seq<u8>)>::empty());
        r
    }

    /// Records output `vout` of `tx` as unspent, with the given value and script.
    pub fn add_utxo(&mut self, tx: &Transaction, vout: u32, value: u64, script_pubkey: Vec<u8>)
        requires
            old(self).well_formed(),
        ensures
            final(self).well_formed(),
            final(self).view() == old(self).view().insert((spec_txid(*tx), vout), (value, script_pubkey@)),
    {
        let id = txid(tx);
        self.insert_output(id, vout, value, script_pubkey);
    }

    /// Records output `vout` of the transaction with id `txid` as unspent.
    pub fn insert_output(&mut self, txid: [u8; 32], vout: u32, value: u64, script_pubkey: Vec<u8>)
        requires
            old(self).well_formed(),
        ensures
            final(self).well_formed(),
            final(self).view() == old(self).view().insert((txid@, vout), (value, script_pubkey@)),
    {
        let outpoint = OutPoint::new(txid, vout);
        let ghost sv = script_pubkey@;
        let utxo = UtxoMeta { txid, vout, value, script_pubkey };
        self.utxos.insert(outpoint, utxo);
        assert(self.view() =~= old(self).view().insert((txid@, vout), (value, sv)));
    }

    /// Whether `outpoint` is unspent in this set.
    pub fn contains(&self, outpoint: &OutPoint) -> (r: bool)
        requires
            self.well_formed(),
        ensures
            r == self.view().dom().contains(outpoint.key_view()),
    {
        self.utxos.contains_key(outpoint)
    }

    /// Some unspent outpoint of the set, if it holds any.
    pub fn first_outpoint(&self) -> (r: Option<OutPoint>)
        requires
            self.well_formed(),
        ensures
            match r {
                Some(o) => self.view().contains_key(o.key_view()),
                None => self.view().dom().len() == 0,
            },
    {
        if self.utxos.len() == 0 {
            assert(self.view().dom() =~= self.utxos.view().dom());
            return None;
        }
        let o = *self.utxos.key_at(0);
        proof {
            self.utxos.lemma_key_seq_in_dom(0);
        }
        Some(o)
    }

    /// Marks `outpoint` as spent.
    pub fn spend_utxo(&mut self, outpoint: OutPoint)
        requires
            old(self).well_formed(),
        ensures
            final(self).well_formed(),
            final(self).view() == old(self).view().remove(outpoint.key_view()),
    {
        let _ = self.utxos.remove(&outpoint);
        assert(self.view() =~= old(self).view().remove(outpoint.key_view()));
    }
}

} // verus!
