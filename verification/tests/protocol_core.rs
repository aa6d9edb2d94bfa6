use babel_protocol::arch::ProgramError;
use babel_protocol::babel_core::{BabelCore, UtxoRef, OWNERSHIP_TRANSFER_DELAY, UTXO};
use babel_protocol::base::BabelBase;
use babel_protocol::borrower_operations::{BorrowerOperationsState, DebtChange, SystemBalances};
use babel_protocol::btc::{txid, OutPoint, Transaction, TxIn, TxOut};
use babel_protocol::debt_token::{DebtToken, DebtTokenError};
use babel_protocol::delegated_ops::DelegatedOps;
use babel_protocol::factory::{DeploymentParams, Factory};
use babel_protocol::handler::{apply_instruction, decode_instruction, process_instructions, ContractInstruction, InstructionType, UtxoInfo};
use babel_protocol::hint_helpers::{MultiCollateralHintHelpers, TroveSnapshot};
use babel_protocol::liquidation::{calculate_coll_gas_compensation, LiquidationManager};
use babel_protocol::multi_trove_getter::MultiTroveGetter;
use babel_protocol::ownable::BabelOwnable;
use babel_protocol::price_feed::{PriceFeed, RoundData};
use babel_protocol::sorted_troves::SortedTroves;
use babel_protocol::token_contract::TokenContract;
use babel_protocol::trove_getters::TroveManagerGetters;
use babel_protocol::types::Pubkey;

fn key(b: u8) -> Pubkey {
    Pubkey::new([b; 32])
}

fn sample_tx() -> Transaction {
    Transaction {
        version: 2,
        lock_time: 0,
        input: vec![TxIn { previous_output: OutPoint::new([9u8; 32], 1), script_sig: Vec::new(), sequence: 7 }],
        output: vec![TxOut { value: 5000, script_pubkey: vec![0x51] }],
    }
}

#[test]
fn borrower_operations_checks() {
    let ops = BorrowerOperationsState::new(
        10,
        BabelBase::new(200),
        BabelOwnable::new("owner".to_string(), "guardian".to_string()),
        DelegatedOps::new("owner".to_string(), "operator".to_string()),
        150,
    );
    assert_eq!(ops.calculate_icr(300, 0, 7), u128::MAX);
    assert_eq!(ops.calculate_icr(300, 100, 2), 6);
    ops.ensure_owner_or_delegate(&"owner".to_string());
    assert_eq!(ops.ensure_user_accepts_fee(5, 100, 5), Ok(()));
    assert_eq!(ops.ensure_user_accepts_fee(6, 100, 5), Err("Fee exceeds the maximum fee percentage allowed"));
    assert_eq!(ops.require_icr_is_above_mcr(110, 110), Ok(()));
    assert_eq!(ops.require_icr_is_above_mcr(109, 110), Err("ICR must be above the minimum collateral ratio"));
    assert_eq!(ops.require_icr_is_above_ccr(149), Err("ICR must be above the critical collateral ratio"));
    assert_eq!(ops.require_new_icr_is_above_old_icr(5, 6), Err("New ICR must be above the old ICR in Recovery Mode"));
    assert_eq!(ops.require_new_tcr_is_above_ccr(150), Ok(()));
    assert_eq!(
        ops.require_valid_adjustment_in_current_mode(0, 0, true, 1, false, 0, 0, 0, 0),
        Err("Collateral withdrawal not permitted in Recovery Mode")
    );
    assert_eq!(ops.require_valid_adjustment_in_current_mode(0, 0, true, 0, false, 0, 0, 0, 0), Ok(()));
    assert_eq!(
        ops.require_valid_adjustment_in_current_mode(0, 0, true, 0, true, 160, 170, 0, 0),
        Err("New ICR must be above the old ICR in Recovery Mode")
    );
    assert_eq!(
        ops.require_valid_adjustment_in_current_mode(0, 0, false, 0, false, 120, 0, 110, 140),
        Err("New TCR must be above the critical collateral ratio")
    );
    assert_eq!(ops.require_valid_adjustment_in_current_mode(0, 0, false, 9, true, 120, 0, 110, 150), Ok(()));
    assert_eq!(ops.issue_debt(100, 5, 5), Ok(105));
    assert_eq!(ops.open_trove(&"tm".to_string(), &"alice".to_string(), 10, 10), Err("Invalid Trove Manager"));
}

#[test]
fn total_collateral_ratio_and_recovery_mode() {
    let ops = BorrowerOperationsState::new(
        10,
        BabelBase::new(200),
        BabelOwnable::new("owner".to_string(), "guardian".to_string()),
        DelegatedOps::new("owner".to_string(), "operator".to_string()),
        150,
    );
    let balances = SystemBalances { collaterals: vec![10, 20], debts: vec![100, 50], prices: vec![3, 5] };
    // 10*3 + 20*5 = 130 over 150 of debt.
    assert_eq!(ops.get_tcr_data(&balances), (0, 130, 150));
    assert_eq!(ops.get_global_system_balances(&balances), (130, 150));
    assert!(ops.check_recovery_mode(&balances));
    let healthy = SystemBalances { collaterals: vec![1000], debts: vec![2], prices: vec![1] };
    assert!(!ops.check_recovery_mode(&healthy));
    let empty = SystemBalances { collaterals: Vec::new(), debts: Vec::new(), prices: Vec::new() };
    assert_eq!(ops.get_tcr_data(&empty), (u128::MAX, 0, 0));
    assert_eq!(ops.adjust_trove(&"owner".to_string(), 5, 7, &healthy), DebtChange::Issue(7));
    assert_eq!(ops.adjust_trove(&"owner".to_string(), -5, -7, &healthy), DebtChange::Burn(7));
    // In recovery mode collateral may still be added.
    assert_eq!(ops.adjust_trove(&"owner".to_string(), 5, 0, &balances), DebtChange::Burn(0));
}

#[test]
fn debt_token_mint_transfer_burn() {
    let zero = Pubkey::new([0u8; 32]);
    let program = key(42);
    let mut token = DebtToken::new("Babel USD".to_string(), "BUSD".to_string());
    // The zero account is the factory and the borrower operations of a new token.
    assert_eq!(
        token.mint(key(1), 500, key(3), true, sample_tx(), &sample_tx()).err(),
        Some(DebtTokenError::UnauthorizedAccess)
    );
    assert_eq!(
        token.mint(key(1), 500, zero, false, sample_tx(), &sample_tx()).err(),
        Some(DebtTokenError::InvalidAccountData)
    );
    let request = token.mint(key(1), 500, zero, true, sample_tx(), &sample_tx()).unwrap();
    let mut extended = sample_tx();
    extended.input.push(sample_tx().input[0].clone());
    assert_eq!(request.tx_bytes, babel_protocol::btc::serialize_transaction(&extended));
    assert_eq!(request.inputs_to_sign.len(), 1);
    assert_eq!(request.inputs_to_sign[0].index, 0);
    assert_eq!(request.inputs_to_sign[0].signer.bytes, [0u8; 32]);
    assert_eq!(token.balance_of(&key(1)), 500);
    assert_eq!(token.transfer(key(1), key(2), 200, true, true, &program), Ok(()));
    assert_eq!(token.balance_of(&key(1)), 300);
    assert_eq!(token.balance_of(&key(2)), 200);
    assert_eq!(token.transfer(key(1), key(2), 301, true, true, &program), Err(ProgramError::InsufficientFunds));
    assert_eq!(token.transfer(key(1), key(2), 1, false, true, &program), Err(ProgramError::InvalidAccountData));
    assert_eq!(token.transfer(key(1), program, 1, true, true, &program), Err(ProgramError::InvalidInstructionData));
    assert_eq!(token.transfer(key(1), key(1), 300, true, true, &program), Ok(()));
    assert_eq!(token.balance_of(&key(1)), 300);
    // Burning takes an enabled trove manager.
    assert_eq!(token.burn(key(1), 100, key(7), true), Err(ProgramError::InvalidInstructionData));
    assert_eq!(token.enable_trove_manager(key(7), key(8)), Err(DebtTokenError::UnauthorizedAccess));
    assert_eq!(token.enable_trove_manager(key(7), zero), Ok(()));
    assert_eq!(token.burn(key(1), 301, key(7), true), Err(ProgramError::InsufficientFunds));
    assert_eq!(token.burn(key(1), 100, key(7), true), Ok(()));
    assert_eq!(token.balance_of(&key(1)), 200);
    assert_eq!(token.transfer(key(2), key(7), 1, true, true, &program), Err(ProgramError::InvalidInstructionData));
    assert_eq!(token.return_from_pool(key(2), key(1), 50, key(7), true, true, &program), Ok(()));
    assert_eq!(token.balance_of(&key(1)), 250);
    assert_eq!(token.send_to_sp(key(1), 1, key(9), true, true, &program), Err(DebtTokenError::UnauthorizedAccess));
    // The stability pool is the zero account, which cannot receive transfers.
    assert_eq!(token.send_to_sp(key(1), 1, zero, true, true, &program), Err(DebtTokenError::InvalidOperation));
    assert!(token.mint_with_gas_compensation(key(5), 10, zero, true, sample_tx(), sample_tx(), &sample_tx()).is_ok());
    assert_eq!(token.balance_of(&key(5)), 10);
}

#[test]
fn debt_token_issue_debt_needs_double_collateral() {
    let mut token = DebtToken::new("Babel USD".to_string(), "BUSD".to_string());
    assert_eq!(
        token.issue_debt(key(1), 100, key(1), false, sample_tx(), &sample_tx()).err(),
        Some(ProgramError::InvalidAccountData)
    );
    token.add_collateral(key(1), 199);
    assert_eq!(
        token.issue_debt(key(1), 100, key(1), true, sample_tx(), &sample_tx()).err(),
        Some(ProgramError::InsufficientFunds)
    );
    token.add_collateral(key(1), 1);
    let request = token.issue_debt(key(1), 100, key(1), true, sample_tx(), &sample_tx()).unwrap();
    assert_eq!(request.inputs_to_sign[0].signer.bytes, [1u8; 32]);
    assert_eq!(token.balance_of(&key(1)), 100);
}

#[test]
fn debt_token_flash_loans() {
    let mut token = DebtToken::new("Babel USD".to_string(), "BUSD".to_string());
    let zero = Pubkey::new([0u8; 32]);
    assert_eq!(token.calculate_flash_loan_fee(100_000), 90);
    assert_eq!(token.max_flash_loan(), u128::MAX);
    assert!(token.mint(key(1), 1000, zero, true, sample_tx(), &sample_tx()).is_ok());
    assert_eq!(token.flash_loan(key(1), 100_000, true, true), Ok(()));
    // The fee went from the borrower to the fee account (the zero account).
    assert_eq!(token.balance_of(&key(1)), 910);
    assert_eq!(token.balance_of(&zero), 90);
    assert_eq!(token.flash_loan(key(1), 10, false, true), Err(ProgramError::InvalidAccountData));
    assert_eq!(token.flash_loan(key(1), 10, true, false), Err(ProgramError::Custom(0)));
    assert_eq!(token.balance_of(&key(1)), 920);
}

#[test]
fn price_feed_reads_and_caches() {
    let mut feed = PriceFeed::new(key(1));
    feed.set_oracle("BTC".to_string(), key(2), 60, [0; 4], 0, false);
    let round = RoundData { round_id: 3, answer: 50_000, timestamp: 1000 };
    let eth = RoundData { round_id: 4, answer: 2_000_000_000_000_000_000, timestamp: 1000 };
    // Without a stored price there is nothing to return.
    assert_eq!(feed.fetch_price(&"BTC".to_string(), 1000, round, eth), None);
    feed.store_price(&"BTC".to_string(), 7, round, 1000);
    // Stored this second: the stored price.
    assert_eq!(feed.fetch_price(&"BTC".to_string(), 1000, round, eth), Some(7));
    // Later: the oracle's answer, scaled to 18 decimals (already 18).
    assert_eq!(feed.fetch_price(&"BTC".to_string(), 1001, round, eth), Some(50_000));
    assert_eq!(feed.fetch_price(&"BTC".to_string(), 1001, round, eth), Some(50_000));
    // Stale answers give nothing.
    let old = RoundData { round_id: 1, answer: 1, timestamp: 0 };
    assert_eq!(feed.fetch_price(&"BTC".to_string(), 3661, old, eth), None);
    assert!(feed.is_price_stale(0, 60, 3661));
    assert!(!feed.is_price_stale(1, 60, 3661));
}

#[test]
fn price_feed_converts_eth_quotes() {
    let mut feed = PriceFeed::new(key(1));
    feed.set_oracle("ETH".to_string(), key(2), 60, [0; 4], 0, false);
    feed.set_oracle("stETH".to_string(), key(3), 60, [1, 2, 3, 4], 2, true);
    let round = RoundData { round_id: 1, answer: 5000, timestamp: 10 };
    let eth = RoundData { round_id: 2, answer: 2_000_000_000_000_000_000, timestamp: 10 };
    feed.store_price(&"ETH".to_string(), 1, eth, 0);
    feed.store_price(&"stETH".to_string(), 1, round, 0);
    // 5000 with a share price of one at 2 decimals is 50; times 2 ETH-USD.
    assert_eq!(feed.fetch_price(&"stETH".to_string(), 20, round, eth), Some(100));
    assert_eq!(feed.fetch_price(&"ETH".to_string(), 20, eth, eth), Some(2_000_000_000_000_000_000));
}

#[test]
fn instructions_decode_from_borsh() {
    let bytes = vec![1u8, 3, 0, 0, 0, 9, 8, 7];
    let decoded = decode_instruction(&bytes).unwrap();
    assert_eq!(decoded.method, InstructionType::AddLiquidity);
    assert_eq!(decoded.data, vec![9, 8, 7]);
    assert!(decode_instruction(&[3u8, 0, 0, 0, 0]).is_none());
    assert!(decode_instruction(&[0u8, 1, 0, 0, 0]).is_none());
    assert!(decode_instruction(&[0u8, 0, 0, 0, 0, 1]).is_none());
    assert!(decode_instruction(&[]).is_none());
    let program = key(0);
    assert_eq!(process_instructions(&program, &[], &[2u8, 0, 0, 0, 0]), Ok(()));
    assert_eq!(process_instructions(&program, &[], &[5u8]), Err(1));
}

#[test]
fn instructions_assign_authorities() {
    let utxos = vec![
        UtxoInfo { txid: "a".to_string(), vout: 0, authority: key(1), data: vec![1] },
        UtxoInfo { txid: "b".to_string(), vout: 1, authority: key(2), data: vec![2, 2] },
        UtxoInfo { txid: "a".to_string(), vout: 2, authority: key(3), data: vec![3] },
    ];
    let open = ContractInstruction { method: InstructionType::OpenPool, data: Vec::new() };
    let changes = apply_instruction(&open, &utxos, &[]);
    assert_eq!(changes.new_authorities.len(), 2);
    assert_eq!(changes.new_authorities.get(&"a".to_string()).unwrap().bytes, [3u8; 32]);
    assert_eq!(changes.new_data.get(&"b".to_string()).unwrap(), &vec![2, 2]);
    let add = ContractInstruction { method: InstructionType::AddLiquidity, data: Vec::new() };
    let changes = apply_instruction(&add, &utxos, &[key(7), key(8), key(9)]);
    assert_eq!(changes.new_authorities.get(&"a".to_string()).unwrap().bytes, [9u8; 32]);
    assert_eq!(changes.new_data.get(&"b".to_string()).unwrap(), &vec![0u8; 10]);
    let remove = ContractInstruction { method: InstructionType::RemoveLiquidity, data: Vec::new() };
    let changes = apply_instruction(&remove, &utxos, &[]);
    assert_eq!(changes.new_authorities.len(), 0);
}

#[test]
fn multi_trove_getter_starts_empty() {
    let getter = MultiTroveGetter::new();
    assert!(getter.get_multiple_sorted_troves(0, 10).is_empty());
}

#[test]
fn token_contract_keeps_accounts() {
    let token = TokenContract::new(vec![1, 2], vec![3]);
    assert_eq!(token.vault_pubkey, vec![1, 2]);
    assert_eq!(token.locker_pubkey, vec![3]);
}

#[test]
fn factory_deploys_named_instances() {
    let mut factory = Factory::new(key(1));
    assert_eq!(
        factory
            .deploy_new_instance(&key(2), "ETH".to_string(), "feed".to_string(), DeploymentParams {}, Ok(()), key(9))
            .err(),
        Some(ProgramError::Unauthorized)
    );
    assert_eq!(factory.instance_count(), 0);
    let request = factory
        .deploy_new_instance(&key(1), "ETH".to_string(), "feed".to_string(), DeploymentParams {}, Ok(()), key(9))
        .unwrap();
    let empty = Transaction { version: 1, lock_time: 0, input: Vec::new(), output: Vec::new() };
    assert_eq!(request.tx_bytes, babel_protocol::btc::serialize_transaction(&empty));
    assert_eq!(request.inputs_to_sign.len(), 1);
    assert_eq!(request.inputs_to_sign[0].index, 0);
    assert_eq!(request.inputs_to_sign[0].signer.bytes, [9u8; 32]);
    // The runtime's refusal is returned; the manager stays registered.
    assert_eq!(
        factory
            .deploy_new_instance(
                &key(1),
                "BTC".to_string(),
                "feed".to_string(),
                DeploymentParams {},
                Err(ProgramError::InvalidAccountData),
                key(9),
            )
            .err(),
        Some(ProgramError::InvalidAccountData)
    );
    assert_eq!(factory.instance_count(), 2);
    assert!(factory.is_deployed(&"tm_1".to_string()));
    assert!(factory.is_deployed(&"tm_2".to_string()));
    for _ in 0..8 {
        assert!(factory
            .deploy_new_instance(&key(1), "X".to_string(), "feed".to_string(), DeploymentParams {}, Ok(()), key(9))
            .is_ok());
    }
    assert!(factory.is_deployed(&"tm_10".to_string()));
    assert!(!factory.is_deployed(&"tm_11".to_string()));
}

#[test]
fn sorted_troves_link_by_hints() {
    let tm = key(4);
    let mut list = SortedTroves::new();
    list.set_addresses(tm);
    assert!(list.is_trove_manager(&tm));
    assert!(!list.is_trove_manager(&key(5)));
    let req = list.insert(&tm, 1, 100, None, None, sample_tx());
    assert_eq!(req.tx_bytes, babel_protocol::btc::serialize_transaction(&sample_tx()));
    assert_eq!(req.inputs_to_sign.len(), 1);
    assert_eq!(req.inputs_to_sign[0].index, 0);
    assert_eq!(req.inputs_to_sign[0].signer.bytes, [4u8; 32]);
    assert_eq!(list.head(), Some(1));
    assert_eq!(list.tail(), Some(1));
    assert!(list.valid_insert_position(150, Some(1), None));
    assert!(!list.valid_insert_position(50, Some(1), None));
    assert!(!list.valid_insert_position(150, Some(9), None));
    list.insert(&tm, 2, 150, Some(1), None, sample_tx());
    assert_eq!(list.tail(), Some(2));
    assert_eq!(list.node(1).unwrap().next_id, Some(2));
    assert_eq!(list.node(2).unwrap().prev_id, Some(1));
    assert_eq!(list.size(), 2);
    assert!(list.remove(&tm, 1, sample_tx()).is_some());
    assert_eq!(list.head(), Some(2));
    assert_eq!(list.size(), 1);
    assert!(list.node(1).is_none());
    assert!(list.remove(&tm, 1, sample_tx()).is_none());
    assert_eq!(list.size(), 1);
    let (removed, inserted) = list.re_insert(&tm, 2, 90, None, None, sample_tx(), sample_tx());
    assert!(removed.is_some());
    assert_eq!(inserted.inputs_to_sign[0].signer.bytes, [4u8; 32]);
    assert_eq!(list.node(2).unwrap().nicr, 90);
    assert_eq!(list.size(), 1);
    let tx = sample_tx();
    list.add_utxo(&tx, 0, 5000, vec![0x51]);
    list.spend_utxo(OutPoint::new(txid(&tx), 0));
    let req = list.create_transaction_to_sign(vec![1, 2], Vec::new());
    assert_eq!(req.tx_bytes, vec![1, 2]);
}

#[test]
fn redemption_hints() {
    let helpers = MultiCollateralHintHelpers::new(Vec::new());
    assert_eq!(MultiCollateralHintHelpers::compute_nominal_cr(100, 50), 2);
    assert_eq!(MultiCollateralHintHelpers::compute_cr(100, 50, 3), 6);
    let troves = vec![
        TroveSnapshot { owner: "a".to_string(), debt: 100, coll: 1000, icr: 300 },
        TroveSnapshot { owner: "b".to_string(), debt: 100, coll: 1000, icr: 200 },
        TroveSnapshot { owner: "c".to_string(), debt: 100, coll: 1000, icr: 50 },
    ];
    // Walking down from "b" (the last trove at or above MCR 110): "b" is
    // fully redeemed, "a" is left with its minimum net debt of 20.
    let hints = helpers.get_redemption_hints(&troves, 110, 20, 150, 1, 10);
    assert_eq!(hints.first_redemption_hint, "b");
    assert_eq!(hints.truncated_debt_amount, 150);
    assert_eq!(hints.partial_redemption_hint_nicr, (1000 - 50) / 50);
    // When the last trove is redeemable the walk visits it twice: "b" gives
    // 100 twice, then "a" gives the last 50 and keeps 950 collateral.
    let two = vec![
        TroveSnapshot { owner: "a".to_string(), debt: 100, coll: 1000, icr: 300 },
        TroveSnapshot { owner: "b".to_string(), debt: 100, coll: 1000, icr: 200 },
    ];
    let twice = helpers.get_redemption_hints(&two, 110, 20, 250, 1, 10);
    assert_eq!(twice.first_redemption_hint, "b");
    assert_eq!(twice.truncated_debt_amount, 250);
    assert_eq!(twice.partial_redemption_hint_nicr, 950 / 50);
    let none = helpers.get_redemption_hints(&troves, 1000, 20, 150, 1, 10);
    assert_eq!(none.first_redemption_hint, "");
    assert_eq!(none.truncated_debt_amount, 0);
}

#[test]
fn liquidation_pays_the_borrower() {
    assert_eq!(calculate_coll_gas_compensation(250), 2);
    let mut manager = LiquidationManager::new(key(1));
    let tm = "tm_1".to_string();
    assert!(manager.liquidate(&tm, key(2)).is_none());
    manager.enable_trove_manager(tm.clone());
    assert!(manager.is_enabled(&tm));
    manager.add_utxo(&sample_tx(), 0, 5000, vec![0x51]);
    let (liq, tx, to_sign) = manager.liquidate(&tm, key(2)).unwrap();
    assert_eq!(liq.liquidated_debt, 100);
    assert_eq!(liq.liquidated_coll, 50);
    assert_eq!(tx.output[0].value, 150);
    assert_eq!(tx.input[0].previous_output.txid, txid(&sample_tx()));
    assert_eq!(to_sign.inputs_to_sign.len(), 1);
    assert_eq!(to_sign.inputs_to_sign[0].previous_output.txid, txid(&sample_tx()));
    assert_eq!(to_sign.inputs_to_sign[0].previous_output.vout, 0);
    assert_eq!(to_sign.inputs_to_sign[0].script_pubkey, tx.output[0].script_pubkey);
    assert_eq!(to_sign.inputs_to_sign[0].value, 150);
    assert_eq!(manager.ensure_factory_or_approved(&key(1)), Ok(()));
    assert_eq!(manager.ensure_factory_or_approved(&key(2)), Err("Unauthorized access"));
}

#[test]
fn core_ownership_transfer() {
    let owner = key(1);
    let mut core = BabelCore::new(owner, key(2), "feed".to_string(), "fees".to_string(), 1_000_000);
    assert!(core.is_owner(&owner));
    assert_eq!(core.set_paused(&key(3), true), Err(ProgramError::Unauthorized));
    assert_eq!(core.set_paused(&key(3), false), Ok(()));
    assert_eq!(core.set_paused(&owner, true), Ok(()));
    assert_eq!(core.set_paused(&key(2), true), Ok(()));
    assert_eq!(core.accept_transfer_ownership(&key(5), 10), Err(ProgramError::InvalidArgument));
    assert_eq!(core.commit_transfer_ownership(&key(5), key(5), 10), Err(ProgramError::Unauthorized));
    assert_eq!(core.commit_transfer_ownership(&owner, key(5), 10), Ok(()));
    assert_eq!(core.accept_transfer_ownership(&key(5), 10 + OWNERSHIP_TRANSFER_DELAY - 1), Err(ProgramError::Unauthorized));
    assert_eq!(core.accept_transfer_ownership(&key(6), 10 + OWNERSHIP_TRANSFER_DELAY), Err(ProgramError::Unauthorized));
    assert_eq!(core.accept_transfer_ownership(&key(5), 10 + OWNERSHIP_TRANSFER_DELAY), Ok(()));
    assert!(core.is_owner(&key(5)));
    assert!(!core.is_owner(&owner));
}

#[test]
fn core_utxo_transfers_balance_values() {
    let mut core = BabelCore::new(key(1), key(2), "feed".to_string(), "fees".to_string(), 0);
    core.add_utxo(UTXO { txid: vec![1], vout: 0, value: 60, script_pubkey: Vec::new() });
    core.add_utxo(UTXO { txid: vec![1], vout: 1, value: 40, script_pubkey: Vec::new() });
    let inputs = vec![UtxoRef { txid: vec![1], vout: 0 }, UtxoRef { txid: vec![1], vout: 1 }];
    let outputs = vec![UTXO { txid: vec![2], vout: 0, value: 100, script_pubkey: Vec::new() }];
    assert_eq!(core.transfer_utxo(inputs, outputs, &vec![Ok(()), Ok(())]), Ok(()));
    let unbalanced = vec![UTXO { txid: vec![3], vout: 0, value: 99, script_pubkey: Vec::new() }];
    assert_eq!(
        core.transfer_utxo(vec![UtxoRef { txid: vec![2], vout: 0 }], unbalanced, &vec![Err(ProgramError::Unauthorized)]),
        Err(ProgramError::Custom(502))
    );
    // A balanced transfer is refused with the runtime's first ownership error.
    let back = vec![UTXO { txid: vec![4], vout: 0, value: 99, script_pubkey: Vec::new() }];
    assert_eq!(
        core.transfer_utxo(
            vec![UtxoRef { txid: vec![3], vout: 0 }],
            back,
            &vec![Err(ProgramError::InvalidAccountData)],
        ),
        Err(ProgramError::InvalidAccountData)
    );
}

#[test]
fn trove_getters_lookups() {
    let getters = TroveManagerGetters::new();
    assert_eq!(getters.get_collateral_token("trove_manager_2"), "BTC");
    assert_eq!(getters.get_collateral_token("trove_manager_9"), "Unknown");
    assert_eq!(getters.get_trove_status("trove_manager_1", "account_1"), 1);
    assert_eq!(getters.get_trove_status("trove_manager_1", "account_2"), 0);
    assert_eq!(getters.get_active_trove_managers_for_account("account_3"), vec!["trove_manager_3".to_string()]);
    assert!(getters.get_active_trove_managers_for_account("account_2").is_empty());
}

#[test]
fn stablecoin_batch_accepts_only_issues() {
    assert_eq!(babel_protocol::handlers::process_instructions(Vec::new()), Ok(()));
    assert_eq!(
        babel_protocol::handlers::process_instructions(vec![
            babel_protocol::handlers::Instruction::IssueStablecoin { btc_amount: 5 },
            babel_protocol::handlers::Instruction::IssueStablecoin { btc_amount: 7 },
        ]),
        Ok(())
    );
    assert_eq!(
        babel_protocol::handlers::process_instructions(vec![babel_protocol::handlers::Instruction::IssueStablecoin { btc_amount: 5 }, babel_protocol::handlers::Instruction::Unsupported]),
        Err(2)
    );
}
