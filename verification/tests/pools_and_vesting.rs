use babel_protocol::allocation_vesting::{AllocationSplit, AllocationVesting, ContractError};
use babel_protocol::boost_calculator::BoostCalculator;
use babel_protocol::btc::{serialize_transaction, txid, OutPoint, Transaction, TxIn, TxOut};
use babel_protocol::fee_receiver::{FeeReceiver, Token};
use babel_protocol::incentive_voting::IncentiveVoting;
use babel_protocol::ownable::BabelOwnable;
use babel_protocol::stability_pool::StabilityPool;
use babel_protocol::system_start::{SystemStart, WEEK};
use babel_protocol::token_locker::TokenLocker;
use babel_protocol::trove_manager::{Status, Trove, TroveManager};
use babel_protocol::types::Pubkey;

fn key(b: u8) -> Pubkey {
    Pubkey::new([b; 32])
}

fn sample_tx() -> Transaction {
    Transaction {
        version: 2,
        lock_time: 0,
        input: vec![TxIn { previous_output: OutPoint::new([3u8; 32], 0), script_sig: vec![1], sequence: 0 }],
        output: vec![
            TxOut { value: 10, script_pubkey: vec![0x51] },
            TxOut { value: 20, script_pubkey: vec![0x52] },
        ],
    }
}

#[test]
fn vesting_claims_what_has_vested() {
    let mut vesting = AllocationVesting::new(1_000_000, 10, key(1), 1);
    let splits = vec![
        AllocationSplit { recipient: key(2), points: 60, number_of_weeks: 2 },
        AllocationSplit { recipient: key(3), points: 40, number_of_weeks: 4 },
    ];
    assert_eq!(vesting.set_allocations(splits, 0), Ok(()));
    assert_eq!(vesting.vesting_start(), Some(0));
    assert_eq!(vesting.allocation(&key(2)).unwrap().points, 60);
    assert!(vesting.allocation(&key(4)).is_none());
    // After one week of two: half of 60% of the total.
    let (claimed, payment) = vesting.claim(&key(2), 1_000_000).unwrap();
    assert_eq!(claimed, 300_000);
    assert_eq!(payment.recipient.bytes, [2u8; 32]);
    assert_eq!(payment.amount, 300_000);
    assert_eq!(vesting.claim(&key(2), 1_000_000).err(), Some(ContractError::NothingToClaim));
    assert_eq!(vesting.claim(&key(4), 1_000_000).err(), Some(ContractError::NothingToClaim));
    // After the period everything has vested.
    let (claimed, payment) = vesting.claim(&key(2), 5_000_000).unwrap();
    assert_eq!(claimed, 600_000);
    assert_eq!(payment.amount, 300_000);
    // Transferring points first claims for the sender and gives that payment.
    let paid = vesting.transfer_points(&key(3), &key(5), 10, 5_000_000).unwrap();
    assert_eq!(paid.recipient.bytes, [3u8; 32]);
    assert_eq!(paid.amount, 400_000);
    assert_eq!(vesting.allocation(&key(3)).unwrap().points, 30);
    assert_eq!(vesting.allocation(&key(5)).unwrap().points, 10);
    assert_eq!(vesting.transfer_points(&key(3), &key(5), 0, 5_000_000).err(), Some(ContractError::ZeroAllocation));
    assert_eq!(vesting.set_allocations(Vec::new(), 0), Err(ContractError::VestingAlreadyStarted));
}

#[test]
fn vesting_refuses_bad_splits() {
    let mut vesting = AllocationVesting::new(1000, 10, key(1), 1);
    let zero = vec![AllocationSplit { recipient: key(2), points: 0, number_of_weeks: 2 }];
    assert_eq!(vesting.set_allocations(zero, 5), Err(ContractError::ZeroAllocation));
    assert_eq!(vesting.vesting_start(), Some(5));
    let mut other = AllocationVesting::new(1000, 10, key(1), 1);
    let no_weeks = vec![AllocationSplit { recipient: key(2), points: 1, number_of_weeks: 0 }];
    assert_eq!(other.set_allocations(no_weeks, 5), Err(ContractError::ZeroNumberOfWeeks));
    let mut empty = AllocationVesting::new(1000, 10, key(1), 1);
    assert_eq!(empty.set_allocations(Vec::new(), 5), Err(ContractError::InsufficientPoints));
}

#[test]
fn vesting_utxos() {
    let mut vesting = AllocationVesting::new(1000, 10, key(1), 1);
    let tx = sample_tx();
    vesting.add_utxo(&tx, 1, 20, vec![0x52]);
    let outpoint = OutPoint::new(txid(&tx), 1);
    assert!(vesting.validate_utxo(&outpoint));
    assert_eq!(vesting.spend_utxo(outpoint), Ok(()));
    assert!(!vesting.validate_utxo(&outpoint));
    assert_eq!(vesting.spend_utxo(outpoint), Err(ContractError::UtxoNotFound));
}

#[test]
fn stability_pool_deposits_and_claims() {
    let mut pool = StabilityPool::new(7);
    let req = pool.deposit(7, 100, sample_tx());
    assert_eq!(req.tx_bytes, serialize_transaction(&sample_tx()));
    assert_eq!(req.inputs_to_sign.len(), 1);
    assert_eq!(req.inputs_to_sign[0].index, 0);
    assert_eq!(req.inputs_to_sign[0].signer.bytes, [0u8; 32]);
    assert_eq!(pool.deposit_of(7), 100);
    assert!(pool.withdraw(7, 30, sample_tx()).is_some());
    assert!(pool.withdraw(7, 71, sample_tx()).is_none());
    assert_eq!(pool.deposit_of(7), 70);
    assert_eq!(pool.total_stablecoins(), 70);
    assert!(pool.claim_reward(7).is_err());
    pool.update_depositor_snapshot(7, 70, 11);
    let snapshot = pool.snapshot(7).unwrap();
    assert_eq!(snapshot.last_deposit, 70);
    assert_eq!(snapshot.last_snapshot_time, 11);
    assert_eq!(pool.get_compounded_debt_deposit(7), Ok(70));
    assert_eq!(pool.claim_reward(7), Ok(70));
    assert!(pool.vault_claim_reward(7, 8).is_err());
    pool.update_depositor_snapshot(7, 0, 12);
    assert!(pool.snapshot(7).is_none());
}

#[test]
fn stability_pool_records_transaction_outputs() {
    let mut pool = StabilityPool::new(7);
    let tx = sample_tx();
    let to_sign = pool.add_bitcoin_transaction(tx.clone());
    assert_eq!(to_sign.tx_bytes, serialize_transaction(&tx));
    assert!(to_sign.inputs_to_sign.is_empty());
}

#[test]
fn trove_manager_collateral_and_surplus() {
    let owner = key(1);
    let mut tm = TroveManager::new(owner, 100);
    assert!(tm.set_paused(&key(2), true).is_err());
    assert!(tm.set_paused(&owner, true).is_ok());
    assert_eq!(tm.adjust_base_rate(&key(2), 5), Err("Unauthorized: caller is not the owner".to_string()));
    assert_eq!(tm.adjust_base_rate(&owner, 5), Ok(()));
    tm.set_trove(
        key(3),
        Trove { debt: 10, coll: 20, stake: 1, status: Status::Active, array_index: 0, active_interest_index: 0 },
    );
    tm.add_collateral(&key(3), 5);
    assert_eq!(tm.claim_collateral(&key(3)), Err("No collateral available to claim".to_string()));
    tm.set_surplus(key(3), 9);
    assert_eq!(tm.claim_collateral(&key(3)), Ok(9));
    assert_eq!(tm.claim_collateral(&key(3)), Err("No collateral available to claim".to_string()));
    assert_eq!(tm.claim_reward(&key(3)), Err("No rewards available to claim".to_string()));
    assert_eq!(tm.spend_utxo(&key(3), [0u8; 32], 0), Err("Owner has no UTXOs".to_string()));
    assert!(!tm.validate_utxo(&key(3), [0u8; 32], 0));
}

#[test]
fn token_locker_lock_and_unlock() {
    let start = SystemStart::from_start_time("init".to_string(), 0);
    let mut locker = TokenLocker::new(10, start, BabelOwnable::new("core".to_string(), "guardian".to_string()));
    assert_eq!(locker.tokens_for(3), 30);
    assert_eq!(locker.get_account_balances(&key(1)), (0, 0));
    let (tokens, request) = locker.lock(key(1), 50, 3, sample_tx());
    assert_eq!(tokens, 500);
    assert_eq!(request.tx_bytes, serialize_transaction(&sample_tx()));
    assert_eq!(request.inputs_to_sign.len(), 1);
    assert_eq!(request.inputs_to_sign[0].index, 0);
    assert_eq!(request.inputs_to_sign[0].signer.bytes, [1u8; 32]);
    let (tokens, _) = locker.lock(key(1), 25, 3, sample_tx());
    assert_eq!(tokens, 250);
    assert_eq!(locker.get_account_balances(&key(1)), (75, 0));
    locker.unlock(&key(1));
    assert_eq!(locker.get_account_balances(&key(1)), (0, 75));
    locker.unlock(&key(2));
    assert!(locker.validate_utxo([0u8; 32], 0).is_err());
}

#[test]
fn boost_calculator_grace_period_and_boost() {
    let start = SystemStart::from_start_time("init".to_string(), 0);
    let mut calc = BoostCalculator::new(key(1), 2, &start, 3 * WEEK);
    assert_eq!(calc.get_week(&start, 4 * WEEK + 1), 4);
    // Weeks 0..4 are within the grace period (2 weeks after week 3).
    assert_eq!(calc.get_boosted_amount(key(2), 500, 100, 1000, 4), 500);
    // After it, an account without recorded lock weight gets nothing.
    assert_eq!(calc.get_boosted_amount(key(2), 500, 100, 1000, 5), 0);
    assert_eq!(calc.calculate_adjusted_amount(1000, 0, 0, 500_000_000), 500);
    assert_eq!(calc.calculate_adjusted_amount(1000, 250, 1000, 1_000_000_000), 250);
    let tx = sample_tx();
    let to_sign = calc.add_transaction(tx.clone());
    assert_eq!(to_sign.tx_bytes, serialize_transaction(&tx));
    assert_eq!(to_sign.inputs_to_sign[0].signer.bytes, [1u8; 32]);
    calc.add_utxo(&tx, 0, 10, vec![0x51]);
    assert!(calc.spend_utxo(OutPoint::new(txid(&tx), 0)).is_ok());
    assert!(calc.spend_utxo(OutPoint::new(txid(&tx), 0)).is_err());
}

#[test]
fn token_transfers_and_fee_receiver() {
    let mut token = Token::new();
    assert_eq!(token.transfer(key(1), key(2), 1, ), Err("Insufficient balance".to_string()));
    assert_eq!(token.transfer(key(1), key(2), 0), Ok(()));
    token.approve(key(1), key(2), 5);
    assert_eq!(token.balance_of(&key(2)), 0);
    let mut receiver = FeeReceiver::new(key(1));
    assert!(receiver.only_owner().is_ok());
    assert_eq!(receiver.transfer_token("BUSD".to_string(), key(2), 1), Err("Token not found".to_string()));
    assert_eq!(receiver.set_token_approval("BUSD".to_string(), key(2), 1), Err("Token not found".to_string()));
    assert_eq!(receiver.process_bitcoin_transaction("t1".to_string(), sample_tx()), Ok(()));
    let state = Transaction { version: 1, lock_time: 0, input: Vec::new(), output: Vec::new() };
    let to_sign = receiver.process_arch_transaction("t2".to_string(), sample_tx(), state).unwrap();
    let expected = Transaction { version: 1, lock_time: 0, input: sample_tx().input, output: Vec::new() };
    assert_eq!(to_sign.tx_bytes, serialize_transaction(&expected));
    let tx = sample_tx();
    receiver.add_utxo(&tx, 0, 10, vec![0x51]);
    assert_eq!(receiver.spend_utxo(OutPoint::new(txid(&tx), 0)), Ok(()));
    assert_eq!(receiver.spend_utxo(OutPoint::new(txid(&tx), 0)), Err("UTXO not found".to_string()));
    assert_eq!(receiver.transfer_ownership(key(9)), Ok(()));
}

#[test]
fn incentive_voting_starts_without_accounts() {
    let voting = IncentiveVoting::new(key(1), key(2), key(3), 0);
    let _ = voting;
}

#[test]
fn stability_pool_accrues_pending_rewards() {
    let mut pool = StabilityPool::new(7);
    assert!(pool.accrue_rewards(3).is_err());
    pool.update_depositor_snapshot(3, 500, 20);
    assert_eq!(pool.accrue_rewards(3), Ok(()));
    let snapshot = pool.snapshot(3).unwrap();
    assert_eq!(snapshot.stored_pending_reward, 0);
    assert_eq!(snapshot.last_deposit, 500);
    assert_eq!(pool.get_babel_gain_from_snapshots(500, &snapshot), 0);
    assert_eq!(pool.claimable_reward(3), Ok(0));
}

#[test]
fn vesting_verifies_transaction_inputs() {
    let vesting = AllocationVesting::new(1000, 10, key(1), 1);
    let tx = sample_tx();
    let n = tx.input.len();
    assert!(vesting.verify_bitcoin_transaction(&tx, &vec![true; n]));
    let mut verdicts = vec![true; n];
    verdicts[n - 1] = false;
    assert!(!vesting.verify_bitcoin_transaction(&tx, &verdicts));
}

#[test]
fn vesting_locks_future_claims_for_a_receiver() {
    let mut vesting = AllocationVesting::new(1_000_000, 10, key(1), 7);
    let splits = vec![
        AllocationSplit { recipient: key(2), points: 60, number_of_weeks: 2 },
        AllocationSplit { recipient: key(3), points: 40, number_of_weeks: 4 },
    ];
    assert_eq!(vesting.set_allocations(splits, 0), Ok(()));
    assert_eq!(vesting.lock_future_claims_with_receiver(&key(4), &key(9), 0, 0).err(), Some(ContractError::CannotLock));
    // At most 10% of 400_000 may be preclaimed, rounded down to a multiple of 7.
    let lock = vesting.lock_future_claims_with_receiver(&key(3), &key(9), 0, 0).unwrap();
    assert_eq!(lock.receiver.bytes, [9u8; 32]);
    assert_eq!(lock.tokens, 39_998);
    assert_eq!(lock.units, 5_714);
    assert_eq!(lock.weeks, 52);
    assert!(lock.claim_payment.is_none());
    assert_eq!(vesting.allocation(&key(3)).unwrap().claimed, 39_998);
    assert_eq!(vesting.allocation(&key(3)).unwrap().preclaimed, 39_998);
    assert_eq!(vesting.lock_future_claims(&key(3), 5, 0).err(), Some(ContractError::PreclaimTooLarge));
    let own = vesting.lock_future_claims(&key(2), 14, 0).unwrap();
    assert_eq!(own.receiver.bytes, [2u8; 32]);
    assert_eq!(own.units, 2);
}
