use data_coalition::address::Address;
use data_coalition::coalition::DataCoalition;
use data_coalition::config::ConfigModule;
use data_coalition::state::CoalitionState;
use data_coalition::types::{CallContext, CoalitionError};

fn addr(n: u8) -> Address {
    Address { bytes: [n; 32] }
}

fn ctx(caller: u8) -> CallContext {
    CallContext { caller: addr(caller), owner: addr(100), self_address: addr(200), block_timestamp: 1_000 }
}

fn admin_bytes(s: &CoalitionState) -> Vec<u8> {
    s.get_admins().iter().map(|a| a.bytes[0]).collect()
}

#[test]
fn init_makes_deployer_admin() {
    let mut s = CoalitionState::new();
    s.init(&ctx(1));
    assert_eq!(admin_bytes(&s), vec![1]);
    assert!(s.require_caller_is_admin(&ctx(1)).is_ok());
}

#[test]
fn owner_is_admin_without_being_listed() {
    let s = CoalitionState::new();
    assert!(s.require_caller_is_admin(&ctx(100)).is_ok());
    assert_eq!(s.require_caller_is_admin(&ctx(2)), Err(CoalitionError::CallerNotAdmin));
}

#[test]
fn non_admin_cannot_add_admin_and_nothing_changes() {
    let mut s = CoalitionState::new();
    s.init(&ctx(1));
    assert_eq!(s.add_admin_endpoint(&ctx(2), addr(3)), Err(CoalitionError::CallerNotAdmin));
    assert_eq!(admin_bytes(&s), vec![1]);
}

#[test]
fn adding_twice_lists_once() {
    let mut s = CoalitionState::new();
    s.init(&ctx(1));
    s.add_admin_endpoint(&ctx(1), addr(2)).unwrap();
    s.add_admin_endpoint(&ctx(1), addr(2)).unwrap();
    s.add_admin_endpoint(&ctx(100), addr(3)).unwrap();
    assert_eq!(admin_bytes(&s), vec![1, 2, 3]);
}

#[test]
fn removal_moves_last_admin_into_place() {
    let mut s = CoalitionState::new();
    s.init(&ctx(1));
    s.add_admin_endpoint(&ctx(1), addr(2)).unwrap();
    s.add_admin_endpoint(&ctx(1), addr(3)).unwrap();
    s.remove_admin_endpoint(&ctx(1), addr(1)).unwrap();
    assert_eq!(admin_bytes(&s), vec![3, 2]);
    assert_eq!(s.require_caller_is_admin(&ctx(1)), Err(CoalitionError::CallerNotAdmin));
    s.remove_admin_endpoint(&ctx(2), addr(9)).unwrap();
    assert_eq!(admin_bytes(&s), vec![3, 2]);
}

#[test]
fn add_then_remove_restores_admins() {
    let mut s = CoalitionState::new();
    s.init(&ctx(1));
    s.add_admin_endpoint(&ctx(1), addr(2)).unwrap();
    s.add_admin_endpoint(&ctx(1), addr(4)).unwrap();
    s.remove_admin_endpoint(&ctx(1), addr(4)).unwrap();
    assert_eq!(admin_bytes(&s), vec![1, 2]);
}

#[test]
fn only_admins_set_the_native_token() {
    let mut s = CoalitionState::new();
    assert_eq!(s.init_config_module_endpoint(&ctx(5), b"ITHEUM-a1b2c3".to_vec()), Err(CoalitionError::CallerNotAdmin));
    assert_eq!(s.native_token(), Vec::<u8>::new());
    s.init_config_module_endpoint(&ctx(100), b"ITHEUM-a1b2c3".to_vec()).unwrap();
    assert_eq!(s.native_token(), b"ITHEUM-a1b2c3".to_vec());
}

#[test]
fn upgrade_keeps_storage() {
    let mut s = CoalitionState::new();
    s.init(&ctx(1));
    s.upgrade();
    assert_eq!(admin_bytes(&s), vec![1]);
}

#[test]
fn error_messages_match_the_contract() {
    assert_eq!(CoalitionError::CallerNotAdmin.message(), b"caller must be admin".to_vec());
    assert_eq!(CoalitionError::CallerNotDao.message(), b"caller must be dao".to_vec());
    assert_eq!(CoalitionError::StakeLocked.message(), b"stake is locked".to_vec());
    assert_eq!(CoalitionError::StakeTokenNotFungible.message(), b"stake token must be fungible".to_vec());
    assert_eq!(
        CoalitionError::StorageDecodeBadLength.message(),
        b"storage decode error (key: aggregate:contract): bad array length".to_vec()
    );
    assert_eq!(
        CoalitionError::SubtractNegative.message(),
        b"cannot subtract because result would be negative".to_vec()
    );
    assert_eq!(CoalitionError::Panic.message(), b"panic occurred".to_vec());
}
