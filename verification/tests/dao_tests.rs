use data_coalition::address::Address;
use data_coalition::amount::Amount;
use data_coalition::dao::DaoModule;
use data_coalition::state::CoalitionState;
use data_coalition::types::{CallContext, CoalitionError, ContractCall, EsdtPayment, PolicyMethod};

fn addr(n: u8) -> Address {
    Address { bytes: [n; 32] }
}

fn args(call: &ContractCall) -> (Vec<u8>, Vec<Vec<u8>>) {
    match call {
        ContractCall::DirectExecute { actions, .. } => (actions[0].endpoint.clone(), actions[0].arguments.clone()),
        _ => panic!("expected a direct execution"),
    }
}

#[test]
fn plug_arguments() {
    let s = CoalitionState::new();
    let ctx = CallContext { caller: addr(1), owner: addr(2), self_address: addr(3), block_timestamp: 0 };
    let (endpoint, a) = args(&s.configure_plug(&ctx, addr(70)));
    assert_eq!(endpoint, b"setPlug".to_vec());
    assert_eq!(a, vec![vec![3; 32], vec![1], vec![1], vec![0]]);
}

#[test]
fn permission_arguments_list_each_payment() {
    let s = CoalitionState::new();
    let payments = vec![
        EsdtPayment { token_identifier: b"AAA-111111".to_vec(), token_nonce: 300, amount: Amount::from_u64(256) },
        EsdtPayment { token_identifier: b"BBB-222222".to_vec(), token_nonce: 0, amount: Amount::zero() },
    ];
    let call = s.create_permission(addr(70), b"p".to_vec(), Amount::from_u64(7), addr(9), b"ep".to_vec(), payments);
    let (endpoint, a) = args(&call);
    assert_eq!(endpoint, b"createPermission".to_vec());
    assert_eq!(
        a,
        vec![
            b"p".to_vec(),
            vec![7],
            vec![9; 32],
            b"ep".to_vec(),
            b"AAA-111111".to_vec(),
            vec![1, 0],
            vec![44],
            b"BBB-222222".to_vec(),
            vec![],
            vec![0],
        ]
    );
}

#[test]
fn policy_endpoints_and_arguments() {
    let s = CoalitionState::new();
    let weighted = s.create_policy(addr(70), PolicyMethod::Weight, b"r".to_vec(), b"p".to_vec(), Amount::from_u64(1000), 300);
    assert_eq!(
        args(&weighted.unwrap()),
        (b"createPolicyWeighted".to_vec(), vec![b"r".to_vec(), b"p".to_vec(), vec![3, 232], vec![44]])
    );
    let quorum = s.create_policy(addr(70), PolicyMethod::Quorum, b"r".to_vec(), b"p".to_vec(), Amount::from_u64(258), 0);
    assert_eq!(args(&quorum.unwrap()), (b"createPolicyQuorum".to_vec(), vec![b"r".to_vec(), b"p".to_vec(), vec![2]]));
    let one = s.create_policy(addr(70), PolicyMethod::One, b"r".to_vec(), b"p".to_vec(), Amount::from_u64(9), 9);
    assert_eq!(args(&one.unwrap()), (b"createPolicyOne".to_vec(), vec![b"r".to_vec(), b"p".to_vec()]));
    let all = s.create_policy(addr(70), PolicyMethod::All, b"r".to_vec(), b"p".to_vec(), Amount::zero(), 0);
    assert_eq!(args(&all.unwrap()).0, b"createPolicyAll".to_vec());
}

#[test]
fn quorum_beyond_u64_faults() {
    let s = CoalitionState::new();
    let huge = Amount::from_u64(u64::MAX).add(&Amount::from_u64(1));
    let r = s.create_policy(addr(70), PolicyMethod::Quorum, b"r".to_vec(), b"p".to_vec(), huge, 0);
    assert!(matches!(r, Err(CoalitionError::Panic)));
    let huge = Amount::from_u64(u64::MAX).add(&Amount::from_u64(1));
    assert!(s.create_policy(addr(70), PolicyMethod::Majority, b"r".to_vec(), b"p".to_vec(), huge, 0).is_ok());
}

#[test]
fn unilateral_action_targets_the_dao() {
    let s = CoalitionState::new();
    match s.execute_unilateral_action(addr(70), b"ep".to_vec(), vec![vec![1, 2]], 5) {
        ContractCall::DirectExecute { dao, actions } => {
            assert_eq!(dao.bytes, [70; 32]);
            assert_eq!(actions.len(), 1);
            assert_eq!(actions[0].destination.bytes, [70; 32]);
            assert_eq!(actions[0].gas_limit, 5);
            assert_eq!(actions[0].arguments, vec![vec![1, 2]]);
        },
        _ => panic!("expected a direct execution"),
    }
}
