use babel_protocol::config::{Config, NetworkConfig};
use babel_protocol::delegated_ops::DelegatedOps;
use babel_protocol::system_start::{SystemStart, WEEK};

#[test]
fn test_new_config() {
    let config = Config::new();
    assert_eq!(config.network_endpoint, "https://rpc.arch.network");
    assert!(config.feature_toggle);
}

#[test]
fn arch_network_endpoint() {
    assert_eq!(NetworkConfig::arch_network().rpc_url, "https://rpc.arch.network");
}

#[test]
fn test_new_delegated_ops() {
    let delegated_ops = DelegatedOps::new("owner".to_string(), "operator".to_string());
    assert_eq!(delegated_ops.owner(), "owner");
    assert_eq!(delegated_ops.operator(), "operator");
}

#[test]
fn test_only_operator() {
    let delegated_ops = DelegatedOps::new("owner".to_string(), "operator".to_string());
    assert!(delegated_ops.only_operator(&"operator".to_string()));
    assert!(!delegated_ops.only_operator(&"not_operator".to_string()));
}

#[test]
fn delegated_ops_test_serialization_deserialization() {
    let delegated_ops = DelegatedOps::new("owner".to_string(), "operator".to_string());
    let serialized = delegated_ops.to_bytes();
    let deserialized = DelegatedOps::from_bytes(&serialized).unwrap();

    assert_eq!(delegated_ops.owner(), deserialized.owner());
    assert_eq!(delegated_ops.operator(), deserialized.operator());
}

#[test]
fn delegated_ops_bytes_match_borsh() {
    let mut ops = DelegatedOps::new("owner".to_string(), "operator".to_string());
    ops.set_delegate_approval("alice".to_string(), "bob".to_string(), true);
    ops.set_delegate_approval("carol".to_string(), "dave".to_string(), false);
    let expected = borsh::to_vec(&(
        "owner".to_string(),
        "operator".to_string(),
        vec![("alice".to_string(), "bob".to_string(), true), ("carol".to_string(), "dave".to_string(), false)],
    ))
    .unwrap();
    assert_eq!(ops.to_bytes(), expected);
    let back = DelegatedOps::from_bytes(&expected).unwrap();
    assert!(back.is_approved_delegate("alice".to_string(), "bob".to_string()));
    assert!(!back.is_approved_delegate("carol".to_string(), "dave".to_string()));
    assert_eq!(back.to_bytes(), expected);
}

#[test]
fn delegated_ops_refuses_bad_bytes() {
    let twice = borsh::to_vec(&(
        "owner".to_string(),
        "operator".to_string(),
        vec![("alice".to_string(), "bob".to_string(), true), ("alice".to_string(), "bob".to_string(), false)],
    ))
    .unwrap();
    assert!(DelegatedOps::from_bytes(&twice).is_none());
    let mut bad_flag = borsh::to_vec(&("o".to_string(), "p".to_string(), vec![("a".to_string(), "b".to_string(), true)])).unwrap();
    let last = bad_flag.len() - 1;
    bad_flag[last] = 2;
    assert!(DelegatedOps::from_bytes(&bad_flag).is_none());
    let mut trailing = DelegatedOps::new("o".to_string(), "p".to_string()).to_bytes();
    trailing.push(0);
    assert!(DelegatedOps::from_bytes(&trailing).is_none());
}

#[test]
fn delegate_approval_is_read_back() {
    let mut ops = DelegatedOps::new("owner".to_string(), "operator".to_string());
    assert!(!ops.is_approved_delegate("alice".to_string(), "bob".to_string()));
    ops.set_delegate_approval("alice".to_string(), "bob".to_string(), true);
    assert!(ops.is_approved_delegate("alice".to_string(), "bob".to_string()));
    assert!(!ops.is_approved_delegate("bob".to_string(), "alice".to_string()));
    ops.ensure_caller_or_delegated("alice".to_string(), "bob".to_string());
    ops.ensure_caller_or_delegated("alice".to_string(), "alice".to_string());
    ops.set_delegate_approval("alice".to_string(), "bob".to_string(), false);
    assert!(!ops.is_approved_delegate("alice".to_string(), "bob".to_string()));
}

#[test]
fn test_new_system_start() {
    let system_start = SystemStart::new("initializer".to_string());
    assert_eq!(system_start.initializer(), "initializer");
}

#[test]
fn test_only_initializer() {
    let system_start = SystemStart::new("initializer".to_string());
    assert!(system_start.only_initializer(&"initializer".to_string()));
    assert!(!system_start.only_initializer(&"not_initializer".to_string()));
}

#[test]
fn system_start_test_serialization_deserialization() {
    let system_start = SystemStart::new("initializer".to_string());
    let serialized = system_start.to_bytes();
    let deserialized = SystemStart::from_bytes(&serialized).unwrap();
    assert_eq!(system_start.initializer(), deserialized.initializer());
}

#[test]
fn system_start_bytes_match_borsh() {
    let start = SystemStart::from_start_time("init".to_string(), 1_700_000_000);
    let expected = borsh::to_vec(&("init".to_string(), 1_700_000_000u64)).unwrap();
    assert_eq!(start.to_bytes(), expected);
    let back = SystemStart::from_bytes(&expected).unwrap();
    assert_eq!(back.start_time(), 1_700_000_000);
    assert!(SystemStart::from_bytes(&expected[..expected.len() - 1]).is_none());
}

#[test]
fn week_numbering() {
    let start = SystemStart::from_start_time("init".to_string(), 1000);
    assert_eq!(start.get_week(1000), 0);
    assert_eq!(start.get_week(1000 + WEEK - 1), 0);
    assert_eq!(start.get_week(1000 + WEEK), 1);
    assert_eq!(start.get_week(1000 + 5 * WEEK + 3), 5);
}
