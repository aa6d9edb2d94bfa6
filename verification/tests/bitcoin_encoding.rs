use babel_protocol::btc::{new_p2pkh, serialize_transaction, txid, OutPoint, Transaction, TxIn, TxOut, UtxoSet};

fn sample() -> Transaction {
    let mut prev = [0u8; 32];
    for (i, b) in prev.iter_mut().enumerate() {
        *b = i as u8;
    }
    Transaction {
        version: 2,
        lock_time: 500_000,
        input: vec![TxIn { previous_output: OutPoint::new(prev, 3), script_sig: vec![0x51, 0x52], sequence: 0xffff_fffe }],
        output: vec![
            TxOut { value: 12_345, script_pubkey: vec![0x00, 0x14, 0xab] },
            TxOut { value: 70_000, script_pubkey: Vec::new() },
        ],
    }
}

fn as_bitcoin(tx: &Transaction) -> bitcoin::Transaction {
    bitcoin::Transaction {
        version: bitcoin::transaction::Version(tx.version),
        lock_time: bitcoin::absolute::LockTime::from_consensus(tx.lock_time),
        input: tx
            .input
            .iter()
            .map(|i| bitcoin::TxIn {
                previous_output: bitcoin::OutPoint {
                    txid: <bitcoin::Txid as bitcoin::hashes::Hash>::from_byte_array(i.previous_output.txid),
                    vout: i.previous_output.vout,
                },
                script_sig: bitcoin::ScriptBuf::from_bytes(i.script_sig.clone()),
                sequence: bitcoin::Sequence(i.sequence),
                witness: bitcoin::Witness::new(),
            })
            .collect(),
        output: tx
            .output
            .iter()
            .map(|o| bitcoin::TxOut {
                value: bitcoin::Amount::from_sat(o.value),
                script_pubkey: bitcoin::ScriptBuf::from_bytes(o.script_pubkey.clone()),
            })
            .collect(),
    }
}

#[test]
fn serialization_matches_consensus_encoding() {
    let tx = sample();
    assert_eq!(serialize_transaction(&tx), bitcoin::consensus::serialize(&as_bitcoin(&tx)));
}

#[test]
fn serialization_of_empty_transaction() {
    let tx = Transaction { version: 1, lock_time: 0, input: Vec::new(), output: Vec::new() };
    assert_eq!(serialize_transaction(&tx), bitcoin::consensus::serialize(&as_bitcoin(&tx)));
    let expected = <bitcoin::Txid as bitcoin::hashes::Hash>::to_byte_array(as_bitcoin(&tx).compute_txid());
    assert_eq!(txid(&tx), expected);
}

#[test]
fn txid_matches_bitcoin() {
    let tx = sample();
    let expected = <bitcoin::Txid as bitcoin::hashes::Hash>::to_byte_array(as_bitcoin(&tx).compute_txid());
    assert_eq!(txid(&tx), expected);
    assert_ne!(txid(&tx)[..], serialize_transaction(&tx)[..32]);
}

#[test]
fn p2pkh_matches_bitcoin() {
    let key = [2u8; 33];
    let hash = <bitcoin::hashes::hash160::Hash as bitcoin::hashes::Hash>::hash(&key);
    let expected = bitcoin::ScriptBuf::new_p2pkh(&bitcoin::PubkeyHash::from_raw_hash(hash));
    assert_eq!(new_p2pkh(&key), expected.to_bytes());
}

#[test]
fn utxo_set_add_and_spend() {
    let tx = sample();
    let mut set = UtxoSet::new();
    set.add_utxo(&tx, 1, 70_000, vec![0xaa]);
    let outpoint = OutPoint::new(txid(&tx), 1);
    assert!(set.contains(&outpoint));
    assert!(!set.contains(&OutPoint::new(txid(&tx), 0)));
    let first = set.first_outpoint().unwrap();
    assert_eq!(first.vout, 1);
    set.spend_utxo(outpoint);
    assert!(!set.contains(&outpoint));
    assert!(set.first_outpoint().is_none());
}
