use babel_protocol::admin_voting::{self, AdminVoting, MAX_TIME_TO_EXECUTION, MIN_TIME_TO_EXECUTION};
use babel_protocol::airdrop_distributor::{AirdropDistributor, CLAIM_DURATION};
use babel_protocol::btc::{OutPoint, Transaction, TxIn, TxOut};
use babel_protocol::interim_admin::{Action, InterimAdmin};
use babel_protocol::vault::{TokenMove, Vault};
use babel_protocol::ownable::BabelOwnable;
use babel_protocol::system_start::SystemStart;
use sha2::{Digest, Sha256};

fn tx_with_first_output(value: u64) -> Transaction {
    Transaction {
        version: 2,
        lock_time: 0,
        input: vec![TxIn { previous_output: OutPoint::new([7u8; 32], 0), script_sig: Vec::new(), sequence: 0 }],
        output: vec![TxOut { value, script_pubkey: vec![0x51] }],
    }
}

#[test]
fn interim_admin_guardian_is_set_once_by_owner() {
    let mut admin = InterimAdmin::new("core".to_string(), "owner".to_string());
    assert!(admin.is_owner("owner"));
    assert!(!admin.is_owner("mallory"));
    assert!(!admin.set_guardian("mallory", "g".to_string()));
    assert!(admin.set_guardian("owner", "g".to_string()));
    assert!(!admin.set_guardian("owner", "h".to_string()));
}

#[test]
fn interim_admin_proposals_and_cancellation() {
    let mut admin = InterimAdmin::new("core".to_string(), "owner".to_string());
    let now = 100_000;
    assert!(admin.create_new_proposal("mallory", Vec::new(), now).is_none());
    let first = admin
        .create_new_proposal("owner", vec![Action { target: "vault".to_string(), data: vec![1] }], now)
        .unwrap();
    assert_eq!(first.tx_bytes, vec![0]);
    assert_eq!(first.index, 0);
    assert_eq!(first.signer, "owner");
    let second = admin.create_new_proposal("owner", Vec::new(), now + 1).unwrap();
    assert_eq!(second.tx_bytes, vec![1]);
    assert_eq!(admin.proposal_payload(0).len(), 1);
    assert_eq!(admin.proposal_payload(0)[0].target, "vault");
    assert_eq!(admin.proposal_payload(0)[0].data, vec![1]);
    assert!(admin.proposal_payload(1).is_empty());
    // No guardian yet: nothing can be cancelled.
    assert!(admin.cancel_proposal("owner", 0).is_none());
    assert!(admin.set_guardian("owner", "guardian".to_string()));
    assert!(admin.cancel_proposal("stranger", 0).is_none());
    let cancel = admin.cancel_proposal("guardian", 1).unwrap();
    assert_eq!(cancel.tx_bytes, vec![1]);
    assert_eq!(cancel.signer, "guardian");
    assert!(admin.cancel_proposal("owner", 1).is_none());
    assert!(admin.cancel_proposal("owner", 0).is_some());
}

#[test]
fn interim_admin_transaction_bytes_keep_the_low_byte() {
    let admin = InterimAdmin::new("core".to_string(), "owner".to_string());
    assert_eq!(admin.create_transaction_bytes(0x1_05), vec![0x05]);
}

#[test]
fn interim_admin_handles_transactions_with_enough_value() {
    let admin = InterimAdmin::new("core".to_string(), "owner".to_string());
    assert!(admin.handle_bitcoin_transaction(&tx_with_first_output(1000), true));
    assert!(!admin.handle_bitcoin_transaction(&tx_with_first_output(1000), false));
    assert!(!admin.handle_bitcoin_transaction(&tx_with_first_output(999), true));
    let empty = Transaction { version: 2, lock_time: 0, input: Vec::new(), output: Vec::new() };
    assert!(!admin.handle_bitcoin_transaction(&empty, true));
}

#[test]
fn admin_voting_proposal_passes_and_runs() {
    let mut voting = AdminVoting::new(10, 50, 1);
    let now = 200_000;
    voting.create_new_proposal(
        "alice".to_string(),
        vec![admin_voting::Action { target: "vault".to_string(), data: Vec::new() }],
        now,
    );
    let p = voting.get_proposal(0).unwrap();
    assert_eq!(p.week, 1);
    assert_eq!(p.created_at, now);
    assert_eq!(p.can_execute_after, 0);
    assert_eq!(p.required_weight, 1000);
    voting.vote_for_proposal("bob".to_string(), 0, 600, now + 10);
    assert_eq!(voting.get_proposal(0).unwrap().current_weight, 600);
    assert_eq!(voting.get_proposal(0).unwrap().can_execute_after, 0);
    voting.vote_for_proposal("carol".to_string(), 0, 400, now + 20);
    let passed = voting.get_proposal(0).unwrap();
    assert_eq!(passed.current_weight, 1000);
    assert_eq!(passed.can_execute_after, now + 20 + MIN_TIME_TO_EXECUTION);
    let targets = voting.execute_proposal(0, passed.can_execute_after + MAX_TIME_TO_EXECUTION);
    assert_eq!(targets, vec!["vault".to_string()]);
    assert!(voting.get_proposal(0).unwrap().processed);
    assert!(voting.get_proposal(1).is_none());
}

#[test]
fn vault_supply_and_emissions() {
    let mut vault = Vault::new(
        "token".to_string(),
        "schedule".to_string(),
        "locker".to_string(),
        "boost".to_string(),
        "voting".to_string(),
        BabelOwnable::new("core".to_string(), "guardian".to_string()),
        SystemStart::from_start_time("init".to_string(), 0),
        10,
        4,
    );
    vault.increase_unallocated_supply(5000);
    match vault.set_weekly_emission(3, 77) {
        TokenMove::Lock { amount, weeks } => {
            assert_eq!(amount, 77);
            assert_eq!(weeks, 52);
        },
        _ => panic!("expected a lock"),
    }
    match vault.transfer_tokens("alice".to_string(), 1000) {
        TokenMove::Transfer { receiver, amount } => {
            assert_eq!(receiver, "alice");
            assert_eq!(amount, 1000);
        },
        _ => panic!("expected a transfer"),
    }
    assert!(vault.register_receiver(1, "pool".to_string()));
    assert!(vault.register_receiver(2, "other".to_string()));
    assert!(vault.set_receiver_is_active(2, false));
    assert!(!vault.set_receiver_is_active(9, false));
    // Week 3 emitted 1000, shared by two receivers: the active one gets 500.
    vault.allocate_total_weekly(3);
    match vault.transfer_allocated(500, "pool".to_string()) {
        TokenMove::Transfer { amount, .. } => assert_eq!(amount, 500),
        _ => panic!("expected a transfer"),
    }
}

#[test]
fn vault_pending_rewards_lock_whole_units() {
    let mut vault = Vault::new(
        "token".to_string(),
        "schedule".to_string(),
        "locker".to_string(),
        "boost".to_string(),
        "voting".to_string(),
        BabelOwnable::new("core".to_string(), "guardian".to_string()),
        SystemStart::from_start_time("init".to_string(), 0),
        10,
        4,
    );
    // 25 tokens: two lock units of 10, 5 stay pending.
    match vault.transfer_or_lock(25, "alice".to_string()) {
        Some(TokenMove::Lock { amount, weeks }) => {
            assert_eq!(amount, 2);
            assert_eq!(weeks, 4);
        },
        _ => panic!("expected a lock"),
    }
    // 5 pending is under the ratio: nothing to claim.
    assert_eq!(vault.claim_boost_delegation_fees("alice".to_string()).0, 0);
    assert!(vault.transfer_or_lock(3, "bob".to_string()).is_none());
    assert!(vault.register_receiver(1, "pool".to_string()));
    let (claimed, moves) = vault.batch_claim_rewards("alice".to_string(), vec![1, 1]);
    assert!(!claimed);
    assert!(moves.is_empty());
}

#[test]
fn vault_boost_factor() {
    let mut vault = Vault::new(
        "token".to_string(),
        "schedule".to_string(),
        "locker".to_string(),
        "boost".to_string(),
        "voting".to_string(),
        BabelOwnable::new("core".to_string(), "guardian".to_string()),
        SystemStart::from_start_time("init".to_string(), 0),
        10,
        0,
    );
    assert_eq!(vault.get_boost_factor(&"alice".to_string()), 100);
    assert!(vault.set_boost_delegation_params("alice".to_string(), true, 25, None));
    assert_eq!(vault.get_boost_factor(&"alice".to_string()), 125);
    assert_eq!(vault.claimable_reward_after_boost(&"alice".to_string(), &"pool".to_string()), (1000, 1250));
    assert!(vault.set_boost_delegation_params("alice".to_string(), false, 25, Some("cb".to_string())));
    assert_eq!(vault.get_boost_factor(&"alice".to_string()), 100);
    assert_eq!(vault.get_total_weekly_emissions(9), 1000);
}

fn leaf(index: u32, claimant: &str, amount: u64) -> Vec<u8> {
    let mut bytes = index.to_le_bytes().to_vec();
    bytes.extend_from_slice(claimant.as_bytes());
    bytes.extend_from_slice(&amount.to_le_bytes());
    Sha256::digest(&bytes).to_vec()
}

fn parent(a: &[u8], b: &[u8]) -> Vec<u8> {
    let joined = if a < b { [a, b].concat() } else { [b, a].concat() };
    Sha256::digest(&joined).to_vec()
}

#[test]
fn airdrop_claims_with_merkle_proofs() {
    let alice = leaf(0, "alice", 100);
    let bob = leaf(1, "bob", 250);
    let root = parent(&alice, &bob);
    let mut airdrop = AirdropDistributor::new("owner".to_string(), "locker".to_string(), "vault".to_string());
    assert!(!airdrop.is_claim_period_active(10));
    airdrop.set_merkle_root(root.clone(), 10);
    assert!(airdrop.is_claim_period_active(10));
    assert!(!airdrop.is_claim_period_active(10 + CLAIM_DURATION));
    assert!(airdrop.verify_merkle_proof(0, &"alice".to_string(), 100, &vec![bob.clone()]));
    assert!(!airdrop.verify_merkle_proof(0, &"alice".to_string(), 101, &vec![bob.clone()]));
    assert!(!airdrop.verify_merkle_proof(0, &"alice".to_string(), 100, &Vec::new()));
    assert_eq!(
        airdrop.claim(0, "alice".to_string(), "alice".to_string(), 99, vec![bob.clone()], 20),
        Err("Invalid merkle proof")
    );
    assert!(!airdrop.is_claimed(0));
    assert_eq!(airdrop.claim(0, "alice".to_string(), "carol".to_string(), 100, vec![bob.clone()], 20), Ok(()));
    assert!(airdrop.is_claimed(0));
    assert!(!airdrop.is_claimed(1));
    assert_eq!(airdrop.claim(1, "bob".to_string(), "bob".to_string(), 250, vec![alice.clone()], 30), Ok(()));
}

#[test]
fn airdrop_single_leaf_tree() {
    let only = leaf(5, "dave", 1);
    let mut airdrop = AirdropDistributor::new("owner".to_string(), "locker".to_string(), "vault".to_string());
    airdrop.set_merkle_root(only.clone(), 0);
    assert!(airdrop.verify_merkle_proof(5, &"dave".to_string(), 1, &Vec::new()));
    assert!(!airdrop.verify_merkle_proof(5, &"dave".to_string(), 1, &vec![only.clone()]));
}
