use data_coalition::address::Address;
use data_coalition::aggregate::AggregateModule;
use data_coalition::amount::Amount;
use data_coalition::board::BoardModule;
use data_coalition::category::CategoryModule;
use data_coalition::coalition::DataCoalition;
use data_coalition::config::ConfigModule;
use data_coalition::dao::DaoModule;
use data_coalition::stake::StakeModule;
use data_coalition::state::CoalitionState;
use data_coalition::types::{Action, CallContext, CoalitionError, ContractCall, EsdtPayment};

const TOKEN: &[u8] = b"ITHEUM-a1b2c3";

fn addr(n: u8) -> Address {
    Address { bytes: [n; 32] }
}

fn ctx(caller: u8) -> CallContext {
    CallContext { caller: addr(caller), owner: addr(100), self_address: addr(200), block_timestamp: 1_000 }
}

fn payment(token: &[u8], nonce: u64, amount: u64) -> EsdtPayment {
    EsdtPayment { token_identifier: token.to_vec(), token_nonce: nonce, amount: Amount::from_u64(amount) }
}

fn single_action(call: &ContractCall) -> &Action {
    match call {
        ContractCall::DirectExecute { dao, actions } => {
            assert_eq!(actions.len(), 1);
            assert_eq!(actions[0].destination.bytes, dao.bytes);
            assert!(actions[0].value.is_zero());
            assert!(actions[0].payments.is_empty());
            assert_eq!(actions[0].gas_limit, 10_000_000);
            &actions[0]
        },
        _ => panic!("expected a direct execution"),
    }
}

/// Registers `who` as a user by staking one token in DAO 70.
fn register(s: &mut CoalitionState, who: u8) {
    let ctx = CallContext { caller: addr(who), owner: addr(100), self_address: addr(200), block_timestamp: 1_000 };
    s.stake_endpoint(&ctx, payment(TOKEN, 0, 1), addr(70), 0).unwrap();
}

/// Storage with a manager, an aggregator, and the coalition DAO 70
/// (application 7) created by account 2.
fn setup() -> CoalitionState {
    let mut s = CoalitionState::new();
    s.init(&ctx(1));
    s.init_dao_module_endpoint(&ctx(1), addr(50)).unwrap();
    s.init_aggregate_module_endpoint(&ctx(1), addr(60)).unwrap();
    s.init_config_module_endpoint(&ctx(1), TOKEN.to_vec()).unwrap();
    s.create_dao(payment(b"EGLD", 0, 5)).unwrap();
    s.register_aggregator_app(b"coalition".to_vec()).unwrap();
    s.create_endpoint(&ctx(2), addr(70), 7, TOKEN.to_vec(), 3_600).unwrap();
    s
}

#[test]
fn create_dao_needs_a_manager() {
    let s = CoalitionState::new();
    assert!(matches!(s.create_dao(payment(b"EGLD", 0, 5)), Err(CoalitionError::DaoManagerNotSet)));
}

#[test]
fn create_dao_pays_the_manager() {
    let mut s = CoalitionState::new();
    s.init_dao_module_endpoint(&ctx(100), addr(50)).unwrap();
    match s.create_dao(payment(b"EGLD", 0, 5)).unwrap() {
        ContractCall::CreateEntity { manager, features, payment } => {
            assert_eq!(manager.bytes, [50; 32]);
            assert!(features.is_empty());
            assert_eq!(payment.token_identifier, b"EGLD".to_vec());
            assert_eq!(payment.amount.to_be_bytes(), vec![5]);
        },
        _ => panic!("expected a DAO creation"),
    }
}

#[test]
fn register_app_needs_an_aggregator() {
    let s = CoalitionState::new();
    assert!(matches!(s.register_aggregator_app(b"x".to_vec()), Err(CoalitionError::DataAggregatorNotSet)));
    let mut t = CoalitionState::new();
    t.init_aggregate_module_endpoint(&ctx(100), addr(60)).unwrap();
    match t.register_aggregator_app(b"x".to_vec()).unwrap() {
        ContractCall::RegisterApp { aggregator, name } => {
            assert_eq!(aggregator.bytes, [60; 32]);
            assert_eq!(name, b"x".to_vec());
        },
        _ => panic!("expected a registration"),
    }
}

#[test]
fn creation_needs_manager_and_aggregator() {
    let mut s = CoalitionState::new();
    assert!(matches!(
        s.create_endpoint(&ctx(2), addr(70), 7, TOKEN.to_vec(), 3_600),
        Err(CoalitionError::DaoManagerNotSet)
    ));
    s.init_dao_module_endpoint(&ctx(100), addr(50)).unwrap();
    assert!(matches!(
        s.create_endpoint(&ctx(2), addr(70), 7, TOKEN.to_vec(), 3_600),
        Err(CoalitionError::DataAggregatorNotSet)
    ));
    assert!(!s.is_dao(&addr(70)));
    assert_eq!(s.app_id_of(&addr(70)), None);
    assert_eq!(s.user_id(&addr(2)), 0);
}

#[test]
fn creation_sets_up_the_dao() {
    let mut s = CoalitionState::new();
    s.init_dao_module_endpoint(&ctx(100), addr(50)).unwrap();
    s.init_aggregate_module_endpoint(&ctx(100), addr(60)).unwrap();
    let calls = s.create_endpoint(&ctx(2), addr(70), 7, TOKEN.to_vec(), 3_600).unwrap();
    assert_eq!(calls.len(), 4);
    let plug = single_action(&calls[0]);
    assert_eq!(plug.endpoint, b"setPlug".to_vec());
    assert_eq!(plug.arguments, vec![vec![200; 32], vec![1], vec![1], vec![0]]);
    let role = single_action(&calls[1]);
    assert_eq!(role.endpoint, b"assignRole".to_vec());
    assert_eq!(role.arguments, vec![b"board".to_vec(), vec![2; 32]]);
    let permission = single_action(&calls[2]);
    assert_eq!(permission.endpoint, b"createPermission".to_vec());
    assert_eq!(permission.arguments, vec![b"interactCoalition".to_vec(), vec![], vec![200; 32], vec![]]);
    let policy = single_action(&calls[3]);
    assert_eq!(policy.endpoint, b"createPolicyMajority".to_vec());
    assert_eq!(policy.arguments, vec![b"board".to_vec(), b"interactCoalition".to_vec()]);
    assert_eq!(s.app_id_of(&addr(70)), Some(7));
    assert!(s.is_dao(&addr(70)));
    assert_eq!(s.staking_token(&addr(70)), TOKEN.to_vec());
    assert_eq!(s.native_token(), Vec::<u8>::new());
    assert_eq!(s.stake_lock_time(&addr(70)), 3_600);
    assert_eq!(s.user_id(&addr(2)), 1);
    assert!(s.is_board_member(&addr(70), 1));
}

#[test]
fn external_creation_only_records_the_coalition() {
    let mut s = CoalitionState::new();
    assert_eq!(s.create_external_endpoint(&ctx(9), addr(71), 8, TOKEN.to_vec(), 60), Err(CoalitionError::DataAggregatorNotSet));
    assert_eq!(s.app_id_of(&addr(71)), None);
    s.init_aggregate_module_endpoint(&ctx(100), addr(60)).unwrap();
    s.init_config_module_endpoint(&ctx(100), b"GLOBAL-000000".to_vec()).unwrap();
    s.create_external_endpoint(&ctx(9), addr(71), 8, TOKEN.to_vec(), 60).unwrap();
    assert_eq!(s.native_token(), b"GLOBAL-000000".to_vec());
    assert_eq!(s.staking_token(&addr(71)), TOKEN.to_vec());
    assert_eq!(s.app_id_of(&addr(71)), Some(8));
    assert_eq!(s.stake_lock_time(&addr(71)), 60);
    assert!(!s.is_dao(&addr(71)));
    assert_eq!(s.user_id(&addr(9)), 0);
}

#[test]
fn dao_only_endpoints_reject_other_callers() {
    let mut s = setup();
    assert_eq!(s.require_caller_is_dao(&ctx(70)), Ok(()));
    assert_eq!(s.add_category_endpoint(&ctx(3), b"health".to_vec()), Err(CoalitionError::CallerNotDao));
    assert_eq!(s.set_board_min_stake_endpoint(&ctx(3), Amount::from_u64(1)), Err(CoalitionError::CallerNotDao));
    assert_eq!(s.set_board_min_stake_duration_endpoint(&ctx(3), 1), Err(CoalitionError::CallerNotDao));
    assert!(matches!(s.accept_board_member_endpoint(&ctx(3), addr(4)), Err(CoalitionError::CallerNotDao)));
    assert_eq!(s.unlock_board_member_endpoint(&ctx(3), addr(4)), Err(CoalitionError::CallerNotDao));
}

#[test]
fn categories_are_added_once_and_removed() {
    let mut s = setup();
    s.add_category_endpoint(&ctx(70), b"health".to_vec()).unwrap();
    s.add_category_endpoint(&ctx(70), b"sports".to_vec()).unwrap();
    assert_eq!(s.add_category_endpoint(&ctx(70), b"health".to_vec()), Err(CoalitionError::CategoryAlreadyExists));
    assert_eq!(s.category_list(&addr(70)), vec![b"health".to_vec(), b"sports".to_vec()]);
    assert_eq!(s.remove_category_endpoint(&ctx(70), b"music".to_vec()), Err(CoalitionError::CategoryDoesNotExist));
    s.remove_category_endpoint(&ctx(70), b"health".to_vec()).unwrap();
    assert_eq!(s.category_list(&addr(70)), vec![b"sports".to_vec()]);
    assert_eq!(s.require_category_exists(&addr(70), &b"health".to_vec()), Err(CoalitionError::CategoryDoesNotExist));
}

#[test]
fn grant_access_needs_a_category() {
    let mut s = setup();
    let nft = vec![payment(b"DATA-123456", 3, 1)];
    assert!(matches!(
        s.grant_access_endpoint(&ctx(5), addr(70), b"health".to_vec(), nft),
        Err(CoalitionError::CategoryDoesNotExist)
    ));
    s.add_category_endpoint(&ctx(70), b"health".to_vec()).unwrap();
    let nft = vec![payment(b"DATA-123456", 3, 1)];
    match s.grant_access_endpoint(&ctx(5), addr(70), b"health".to_vec(), nft).unwrap() {
        ContractCall::Delegate { aggregator, app_id, segment, user, transfers } => {
            assert_eq!(aggregator.bytes, [60; 32]);
            assert_eq!(app_id, 7);
            assert_eq!(segment, b"health".to_vec());
            assert_eq!(user.unwrap().bytes, [5; 32]);
            assert_eq!(transfers.len(), 1);
            assert_eq!(transfers[0].token_nonce, 3);
        },
        _ => panic!("expected a delegation"),
    }
}

#[test]
fn delegation_needs_a_known_coalition_and_aggregator() {
    let mut s = setup();
    s.add_category_endpoint(&ctx(70), b"health".to_vec()).unwrap();
    let unknown = s.delegate_aggregator(addr(99), addr(5), b"health".to_vec(), vec![]);
    assert!(matches!(unknown, Err(CoalitionError::Panic)));
    let fresh = CoalitionState::new();
    let missing = fresh.undelegate_aggregator(addr(70), vec![]);
    assert!(matches!(missing, Err(CoalitionError::StorageDecodeBadLength)));
}

#[test]
fn grant_callback_books_delegations_and_refunds() {
    let mut s = setup();
    register(&mut s, 5);
    let refund = s.grant_access_callback(addr(5), 2, addr(70), true, vec![payment(b"EGLD", 0, 3)]);
    let refund = refund.unwrap();
    assert_eq!(refund.to.bytes, [5; 32]);
    assert_eq!(refund.payments.len(), 1);
    assert_eq!(s.delegator_count(&addr(70)), 1);
    assert_eq!(s.get_dao_vote_weight_view(&ctx(70), addr(5), None).to_be_bytes(), vec![2]);
    assert!(s.grant_access_callback(addr(5), 1, addr(70), false, vec![]).is_none());
    assert_eq!(s.get_dao_vote_weight_view(&ctx(70), addr(5), None).to_be_bytes(), vec![2]);
}

#[test]
fn unregistered_addresses_weigh_nothing() {
    let mut s = setup();
    s.grant_access_callback(addr(6), 4, addr(70), true, vec![]);
    assert!(s.get_dao_vote_weight_view(&ctx(70), addr(6), None).is_zero());
    assert_eq!(s.delegator_count(&addr(70)), 1);
    assert!(s.get_dao_members_view(None).is_empty());
}

#[test]
fn revoke_undoes_grant() {
    let mut s = setup();
    register(&mut s, 5);
    s.grant_access_callback(addr(5), 1, addr(70), true, vec![]);
    assert_eq!(s.delegator_count(&addr(70)), 1);
    s.revoke_access_callback(addr(5), addr(70), true).unwrap();
    assert_eq!(s.delegator_count(&addr(70)), 0);
    assert!(s.get_dao_vote_weight_view(&ctx(70), addr(5), None).is_zero());
}

#[test]
fn revoke_keeps_delegator_while_items_remain() {
    let mut s = setup();
    register(&mut s, 5);
    s.grant_access_callback(addr(5), 2, addr(70), true, vec![]);
    s.revoke_access_callback(addr(5), addr(70), true).unwrap();
    assert_eq!(s.delegator_count(&addr(70)), 1);
    assert_eq!(s.get_dao_vote_weight_view(&ctx(70), addr(5), None).to_be_bytes(), vec![1]);
    s.revoke_access_callback(addr(5), addr(70), false).unwrap();
    assert_eq!(s.delegator_count(&addr(70)), 1);
}

#[test]
fn revoke_without_delegation_faults() {
    let mut s = setup();
    register(&mut s, 5);
    assert_eq!(s.revoke_access_callback(addr(5), addr(70), true), Err(CoalitionError::SubtractNegative));
    assert_eq!(s.revoke_access_callback(addr(5), addr(70), false), Ok(()));
}

#[test]
fn revoke_access_names_the_nft() {
    let s = setup();
    match s.revoke_access_endpoint(&ctx(5), addr(70), b"DATA-123456".to_vec(), 9).unwrap() {
        ContractCall::Undelegate { aggregator, app_id, nfts } => {
            assert_eq!(aggregator.bytes, [60; 32]);
            assert_eq!(app_id, 7);
            assert_eq!(nfts, vec![(b"DATA-123456".to_vec(), 9)]);
        },
        _ => panic!("expected an undelegation"),
    }
}

#[test]
fn info_needs_the_aggregator() {
    let s = CoalitionState::new();
    assert!(matches!(s.get_info_view(addr(70), None), Err(CoalitionError::StorageDecodeBadLength)));
}

#[test]
fn info_summarises_a_coalition() {
    let mut s = setup();
    s.add_category_endpoint(&ctx(70), b"health".to_vec()).unwrap();
    s.set_board_min_stake_endpoint(&ctx(70), Amount::from_u64(500)).unwrap();
    s.set_board_min_stake_duration_endpoint(&ctx(70), 86_400).unwrap();
    let info = s.get_info_view(addr(70), Some(addr(2))).unwrap();
    assert_eq!(info.native_token, TOKEN.to_vec());
    assert_eq!(info.aggregator.bytes, [60; 32]);
    assert_eq!(info.aggregator_app, 7);
    assert_eq!(info.categories, vec![b"health".to_vec()]);
    assert_eq!(info.delegators, 0);
    assert_eq!(info.board_stake_amount.to_be_bytes(), vec![1, 244]);
    assert_eq!(info.board_stake_duration, 86_400);
    assert_eq!(info.stake_lock_time, 3_600);
    assert!(info.user_stake.is_zero());
    assert_eq!(info.user_stake_unlocks_at, 0);
    let other = s.get_info_view(addr(99), None).unwrap();
    assert_eq!(other.aggregator_app, 0);
    assert!(other.categories.is_empty());
}

#[test]
fn dao_weight_reads_stored_delegations() {
    let mut s = setup();
    s.grant_access_callback(addr(6), 4, addr(70), true, vec![]);
    assert_eq!(s.get_dao_weight(addr(70), 0).to_be_bytes(), vec![4]);
    assert!(s.get_dao_weight(addr(70), 1).is_zero());
    assert!(s.get_dao_weight(addr(71), 0).is_zero());
}

#[test]
fn repeated_grants_list_the_delegator_once() {
    let mut s = setup();
    register(&mut s, 5);
    register(&mut s, 6);
    s.grant_access_callback(addr(5), 1, addr(70), true, vec![]);
    s.grant_access_callback(addr(6), 1, addr(70), true, vec![]);
    s.grant_access_callback(addr(5), 2, addr(70), true, vec![]);
    assert_eq!(s.delegator_count(&addr(70)), 2);
    assert_eq!(s.get_dao_vote_weight_view(&ctx(70), addr(5), None).to_be_bytes(), vec![3]);
    s.revoke_access_callback(addr(6), addr(70), true).unwrap();
    assert_eq!(s.delegator_count(&addr(70)), 1);
    let info = s.get_info_view(addr(70), Some(addr(5))).unwrap();
    assert_eq!(info.delegators, 1);
    assert_eq!(info.user_stake.to_be_bytes(), vec![1]);
}
