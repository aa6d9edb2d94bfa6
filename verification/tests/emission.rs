use babel_protocol::btc::{OutPoint, Transaction, TxIn, TxOut};
use babel_protocol::emission_schedule::{EmissionSchedule, MAX_LOCK_WEEKS, MAX_PCT};
use babel_protocol::types::Pubkey;

fn key(b: u8) -> Pubkey {
    Pubkey::new([b; 32])
}

fn state_tx() -> Transaction {
    Transaction {
        version: 2,
        lock_time: 0,
        input: vec![TxIn { previous_output: OutPoint::new([3u8; 32], 1), script_sig: Vec::new(), sequence: 0 }],
        output: vec![TxOut { value: 546, script_pubkey: vec![0x51] }],
    }
}

fn schedule() -> EmissionSchedule {
    EmissionSchedule::new(key(1), 1_000, key(2), key(3), 26, 13, 100, vec![(10, 50)], true).unwrap()
}

#[test]
fn emission_new_checks_its_settings_in_order() {
    assert_eq!(
        EmissionSchedule::new(key(1), 0, key(2), key(3), MAX_LOCK_WEEKS + 1, 0, MAX_PCT + 1, Vec::new(), false).err(),
        Some("Cannot exceed MAX_LOCK_WEEKS")
    );
    assert_eq!(
        EmissionSchedule::new(key(1), 0, key(2), key(3), MAX_LOCK_WEEKS, 0, MAX_PCT + 1, Vec::new(), false).err(),
        Some("Decay weeks cannot be 0")
    );
    assert_eq!(
        EmissionSchedule::new(key(1), 0, key(2), key(3), 0, 1, MAX_PCT + 1, Vec::new(), false).err(),
        Some("Cannot exceed MAX_PCT")
    );
    assert_eq!(
        EmissionSchedule::new(key(1), 0, key(2), key(3), 0, 1, MAX_PCT, Vec::new(), false).err(),
        Some("Invalid owner account")
    );
    let s = schedule();
    assert_eq!(s.lock_weeks(), 26);
    assert_eq!(s.weekly_pct(), 100);
    assert_eq!(s.scheduled_weekly_pct(), &vec![(10u64, 50u64)]);
}

#[test]
fn emission_schedule_must_fall_by_week() {
    let mut s = schedule();
    assert_eq!(s.set_weekly_pct_schedule(key(9), vec![(5, 1)], true), Err("Only owner can call this function"));
    assert_eq!(
        s.set_weekly_pct_schedule(key(1), vec![(5, 1), (5, 2)], true),
        Err("Must sort by week descending")
    );
    assert_eq!(
        s.set_weekly_pct_schedule(key(1), vec![(u64::MAX, 1)], true),
        Err("Must sort by week descending")
    );
    assert_eq!(
        s.set_weekly_pct_schedule(key(1), vec![(9, 1), (4, MAX_PCT + 1)], true),
        Err("Cannot exceed MAX_PCT")
    );
    assert_eq!(s.set_weekly_pct_schedule(key(1), vec![(9, 1)], false), Err("Invalid caller account"));
    assert_eq!(s.scheduled_weekly_pct(), &vec![(10u64, 50u64)]);
    assert_eq!(s.set_weekly_pct_schedule(key(1), vec![(9, 1), (4, MAX_PCT), (0, 0)], true), Ok(()));
    assert_eq!(s.scheduled_weekly_pct(), &vec![(9u64, 1u64), (4, MAX_PCT), (0, 0)]);
    assert_eq!(s.set_weekly_pct_schedule(key(1), Vec::new(), true), Ok(()));
    assert!(s.scheduled_weekly_pct().is_empty());
}

#[test]
fn emission_lock_and_unlock() {
    let mut s = schedule();
    assert_eq!(s.lock(key(9), 4, true, true, state_tx()).err(), Some("Only owner can call this function"));
    assert_eq!(
        s.lock(key(1), MAX_LOCK_WEEKS + 1, true, true, state_tx()).err(),
        Some("Lock duration exceeds maximum allowed weeks")
    );
    assert_eq!(s.lock(key(1), 4, false, true, state_tx()).err(), Some("Invalid UTXO ownership"));
    assert_eq!(s.lock(key(1), 4, true, false, state_tx()).err(), Some("Invalid caller account"));
    assert_eq!(s.lock_weeks(), 26);
    let t = s.lock(key(1), MAX_LOCK_WEEKS, true, true, state_tx()).unwrap();
    assert_eq!(s.lock_weeks(), MAX_LOCK_WEEKS);
    assert_eq!(t.inputs_to_sign.len(), 1);
    assert_eq!(t.inputs_to_sign[0].index, 0);
    assert_eq!(t.inputs_to_sign[0].signer.bytes, [1u8; 32]);
    assert_eq!(&t.tx_bytes[..4], &[2, 0, 0, 0]);
    assert_eq!(s.unlock(key(9), true, true, state_tx()).err(), Some("Only owner can call this function"));
    assert_eq!(s.lock_weeks(), MAX_LOCK_WEEKS);
    assert!(s.unlock(key(1), true, true, state_tx()).is_ok());
    assert_eq!(s.lock_weeks(), 0);
}
