use data_coalition::address::Address;
use data_coalition::amount::Amount;
use data_coalition::board::BoardModule;
use data_coalition::coalition::DataCoalition;
use data_coalition::config::ConfigModule;
use data_coalition::aggregate::AggregateModule;
use data_coalition::dao::DaoModule;
use data_coalition::stake::StakeModule;
use data_coalition::state::CoalitionState;
use data_coalition::address::UserSlot;
use data_coalition::types::{CallContext, CoalitionError, ContractCall, EsdtPayment};

const TOKEN: &[u8] = b"ITHEUM-a1b2c3";

fn addr(n: u8) -> Address {
    Address { bytes: [n; 32] }
}

fn at(caller: u8, time: u64) -> CallContext {
    CallContext { caller: addr(caller), owner: addr(100), self_address: addr(200), block_timestamp: time }
}

fn tokens(amount: u64) -> EsdtPayment {
    EsdtPayment { token_identifier: TOKEN.to_vec(), token_nonce: 0, amount: Amount::from_u64(amount) }
}

fn stake_of(s: &CoalitionState, dao: u8, who: u8) -> Vec<u8> {
    let user = s.user_id(&addr(who));
    s.stake(&UserSlot { dao: addr(dao), user }).to_be_bytes()
}

/// Coalition DAO 70 with a one-hour lock, created by account 2.
fn setup() -> CoalitionState {
    let mut s = CoalitionState::new();
    s.init(&at(1, 0));
    s.init_dao_module_endpoint(&at(1, 0), addr(50)).unwrap();
    s.init_aggregate_module_endpoint(&at(1, 0), addr(60)).unwrap();
    s.init_config_module_endpoint(&at(1, 0), TOKEN.to_vec()).unwrap();
    s.create_endpoint(&at(2, 0), addr(70), 7, TOKEN.to_vec(), 3_600).unwrap();
    s
}

#[test]
fn staking_needs_a_configured_token() {
    let mut s = CoalitionState::new();
    assert_eq!(s.stake_endpoint(&at(5, 10), tokens(5), addr(70), 0), Err(CoalitionError::StakeTokenNotSet));
    assert_eq!(s.user_id(&addr(5)), 0);
}

#[test]
fn staking_checks_the_token() {
    let mut s = setup();
    let wrong = EsdtPayment { token_identifier: b"OTHER-000000".to_vec(), token_nonce: 0, amount: Amount::from_u64(5) };
    assert_eq!(s.stake_endpoint(&at(5, 10), wrong, addr(70), 0), Err(CoalitionError::InvalidStakeToken));
    let nft = EsdtPayment { token_identifier: TOKEN.to_vec(), token_nonce: 4, amount: Amount::from_u64(1) };
    assert_eq!(s.stake_endpoint(&at(5, 10), nft, addr(70), 0), Err(CoalitionError::StakeTokenNotFungible));
}

#[test]
fn staking_adds_and_locks() {
    let mut s = setup();
    s.stake_endpoint(&at(5, 10), tokens(300), addr(70), 40).unwrap();
    assert_eq!(stake_of(&s, 70, 5), vec![1, 44]);
    assert_eq!(s.get_stake_unlock_time(addr(70), s.user_id(&addr(5))), 10 + 3_600 + 40);
    s.stake_endpoint(&at(5, 20), tokens(200), addr(70), 0).unwrap();
    assert_eq!(stake_of(&s, 70, 5), vec![1, 244]);
    assert_eq!(s.get_stake_unlock_time(addr(70), s.user_id(&addr(5))), 20 + 3_600);
    assert_eq!(s.get_stake_lock_time_seconds(addr(70)), 3_600);
}

#[test]
fn lock_overflow_faults_without_registering() {
    let mut s = setup();
    assert_eq!(s.stake_endpoint(&at(5, u64::MAX - 10), tokens(1), addr(70), 0), Err(CoalitionError::Panic));
    assert_eq!(s.user_id(&addr(5)), 0);
    assert_eq!(s.stake_endpoint(&at(5, 10), tokens(1), addr(70), u64::MAX), Err(CoalitionError::Panic));
    assert_eq!(s.user_id(&addr(5)), 0);
}

#[test]
fn unstake_rejections() {
    let mut s = setup();
    assert!(matches!(s.unstake_endpoint(&at(5, 10), addr(70), Amount::zero()), Err(CoalitionError::UnstakeZero)));
    assert!(matches!(s.unstake_endpoint(&at(5, 10), addr(70), Amount::from_u64(1)), Err(CoalitionError::NoStakeToUnstake)));
    assert_eq!(s.user_id(&addr(5)), 0);
    s.stake_endpoint(&at(5, 10), tokens(100), addr(70), 0).unwrap();
    assert!(matches!(
        s.unstake_endpoint(&at(5, 5_000), addr(70), Amount::from_u64(101)),
        Err(CoalitionError::InsufficientStake)
    ));
    assert!(matches!(s.unstake_endpoint(&at(5, 3_610), addr(70), Amount::from_u64(1)), Err(CoalitionError::StakeLocked)));
    assert_eq!(stake_of(&s, 70, 5), vec![100]);
}

#[test]
fn unstake_pays_back_native_tokens() {
    let mut s = setup();
    s.stake_endpoint(&at(5, 10), tokens(100), addr(70), 0).unwrap();
    let transfer = s.unstake_endpoint(&at(5, 3_611), addr(70), Amount::from_u64(40)).unwrap();
    assert_eq!(transfer.to.bytes, [5; 32]);
    assert_eq!(transfer.payments.len(), 1);
    assert_eq!(transfer.payments[0].token_identifier, TOKEN.to_vec());
    assert_eq!(transfer.payments[0].token_nonce, 0);
    assert_eq!(transfer.payments[0].amount.to_be_bytes(), vec![40]);
    assert_eq!(stake_of(&s, 70, 5), vec![60]);
}

#[test]
fn unstake_after_stake_restores_the_stake() {
    let mut s = setup();
    s.stake_endpoint(&at(5, 10), tokens(70), addr(70), 0).unwrap();
    s.stake_endpoint(&at(5, 20), tokens(30), addr(70), 0).unwrap();
    s.unstake_endpoint(&at(5, 4_000), addr(70), Amount::from_u64(30)).unwrap();
    assert_eq!(stake_of(&s, 70, 5), vec![70]);
}

#[test]
fn stakes_are_kept_per_dao() {
    let mut s = setup();
    s.stake_endpoint(&at(5, 10), tokens(100), addr(70), 0).unwrap();
    s.stake_endpoint(&at(5, 10), tokens(9), addr(71), 0).unwrap();
    assert_eq!(stake_of(&s, 70, 5), vec![100]);
    assert_eq!(stake_of(&s, 71, 5), vec![9]);
    assert_eq!(s.get_stake_unlock_time(addr(71), s.user_id(&addr(5))), 10);
}

#[test]
fn board_acceptance_needs_stake_and_lock() {
    let mut s = setup();
    s.set_board_min_stake_endpoint(&at(70, 0), Amount::from_u64(100)).unwrap();
    s.set_board_min_stake_duration_endpoint(&at(70, 0), 1_000).unwrap();
    assert!(matches!(s.accept_board_member_endpoint(&at(70, 10), addr(5)), Err(CoalitionError::InsufficientStake)));
    assert_eq!(s.user_id(&addr(5)), 0);
    s.stake_endpoint(&at(5, 10), tokens(100), addr(70), 0).unwrap();
    assert!(matches!(
        s.accept_board_member_endpoint(&at(70, 2_610), addr(5)),
        Err(CoalitionError::StakeUnlocksTooEarly)
    ));
    assert!(matches!(s.accept_board_member_endpoint(&at(70, u64::MAX - 1), addr(5)), Err(CoalitionError::Panic)));
    let call = s.accept_board_member_endpoint(&at(70, 2_609), addr(5)).unwrap();
    match call {
        ContractCall::DirectExecute { dao, actions } => {
            assert_eq!(dao.bytes, [70; 32]);
            assert_eq!(actions[0].endpoint, b"assignRole".to_vec());
            assert_eq!(actions[0].arguments, vec![b"board".to_vec(), vec![5; 32]]);
        },
        _ => panic!("expected a direct execution"),
    }
    assert!(s.is_board_member(&addr(70), s.user_id(&addr(5))));
}

#[test]
fn unlocking_board_members() {
    let mut s = setup();
    s.stake_endpoint(&at(5, 10), tokens(100), addr(70), 0).unwrap();
    assert_eq!(s.unlock_board_member_endpoint(&at(70, 20), addr(5)), Err(CoalitionError::NotBoardMember));
    assert_eq!(s.unlock_board_member_endpoint(&at(70, 20), addr(8)), Err(CoalitionError::NotBoardMember));
    assert_eq!(s.user_id(&addr(8)), 0);
    s.accept_board_member_endpoint(&at(70, 20), addr(5)).unwrap();
    s.unlock_board_member_endpoint(&at(70, 30), addr(5)).unwrap();
    assert_eq!(s.get_stake_unlock_time(addr(70), s.user_id(&addr(5))), 0);
    assert!(s.unstake_endpoint(&at(5, 31), addr(70), Amount::from_u64(100)).is_ok());
}

#[test]
fn lock_stake_for_sums_the_times() {
    let mut s = setup();
    assert_eq!(s.lock_stake_for(&at(5, 100), &addr(70), 3, 7), Ok(()));
    assert_eq!(s.get_stake_unlock_time(addr(70), 3), 100 + 3_600 + 7);
    assert_eq!(s.require_stake_unlocked_for(&at(5, 3_707), &addr(70), 3), Err(CoalitionError::StakeLocked));
    assert_eq!(s.require_stake_unlocked_for(&at(5, 3_708), &addr(70), 3), Ok(()));
    assert_eq!(s.lock_stake_for(&at(5, u64::MAX), &addr(70), 3, 0), Err(CoalitionError::Panic));
}

#[test]
fn user_ids_are_permanent() {
    let mut s = setup();
    s.stake_endpoint(&at(5, 10), tokens(1), addr(70), 0).unwrap();
    s.stake_endpoint(&at(6, 10), tokens(1), addr(70), 0).unwrap();
    assert_eq!(s.user_id(&addr(2)), 1);
    assert_eq!(s.user_id(&addr(5)), 2);
    assert_eq!(s.user_id(&addr(6)), 3);
    s.unstake_endpoint(&at(5, 9_999), addr(70), Amount::from_u64(1)).unwrap();
    s.stake_endpoint(&at(5, 10_000), tokens(1), addr(70), 0).unwrap();
    assert_eq!(s.user_id(&addr(5)), 2);
    assert_eq!(s.user_id(&addr(6)), 3);
}

#[test]
fn admins_do_not_count_as_daos() {
    let s = setup();
    assert!(s.require_caller_is_admin(&at(1, 0)).is_ok());
    assert_eq!(s.require_caller_is_dao(&at(1, 0)), Err(CoalitionError::CallerNotDao));
}

#[test]
fn unstake_after_lock_returns_stake_despite_other_calls() {
    let mut s = setup();
    s.stake_endpoint(&at(5, 10), tokens(40), addr(70), 0).unwrap();
    s.stake_endpoint(&at(5, 100), tokens(25), addr(70), 5).unwrap();
    s.stake_endpoint(&at(6, 110), tokens(7), addr(70), 0).unwrap();
    s.set_board_min_stake_endpoint(&at(70, 120), Amount::from_u64(1)).unwrap();
    let transfer = s.unstake_endpoint(&at(5, 100 + 3_600 + 5 + 1), addr(70), Amount::from_u64(25)).unwrap();
    assert_eq!(transfer.payments[0].amount.to_be_bytes(), vec![25]);
    assert_eq!(transfer.payments[0].token_identifier, TOKEN.to_vec());
    assert_eq!(stake_of(&s, 70, 5), vec![40]);
    assert_eq!(stake_of(&s, 70, 6), vec![7]);
}
