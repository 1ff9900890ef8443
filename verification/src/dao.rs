use vstd::prelude::*;
use vstd::string::*;

use crate::address::{Address, Member, UserSlot};
use crate::amount::{minimal_be, Amount};
use crate::state::{slot, CoalitionModel, CoalitionState};
use crate::storage::set_inserted;
use crate::laws::{law_settings_keep_invariant, storage_invariant};
pub use crate::types::{Action, PolicyMethod};
use crate::types::{
    buffer_views, payment_views, ActionView, CallContext, CoalitionError, ContractCall, ContractCallView,
    EsdtPayment, PaymentView,
};

verus! {

/// Gas given to each action a DAO executes for the contract.
pub const UNILATERAL_GAS_LIMIT: u64 = 10_000_000;

/// Quorum of the plug the contract installs in a new DAO.
pub const DEFAULT_QUORUM: u64 = 1;

/// Minimum weight to propose, in the plug the contract installs.
pub const DEFAULT_MIN_TO_PROPOSE: u64 = 1;

/// Decimals of the plug's weight.
pub const DEFAULT_PLUG_WEIGHT_DECIMALS: u8 = 0;

/// Builds calls to the contract at `to`.
#[derive(Clone, Copy, Debug)]
pub struct ContractProxy {
    pub to: Address,
}

/// The DAO manager: creates DAO entities.
pub trait DaoManagerContractProxy {
    fn create_entity_endpoint(&self, features: Vec<Vec<u8>>, payment: EsdtPayment) -> ContractCall;
}

/// A DAO: executes actions directly.
pub trait DaoContractProxy {
    fn direct_execute_endpoint(&self, actions: Vec<Action>) -> ContractCall;
}

impl DaoManagerContractProxy for ContractProxy {
    fn create_entity_endpoint(&self, features: Vec<Vec<u8>>, payment: EsdtPayment) -> (r: ContractCall)
        ensures
            r@ == (ContractCallView::CreateEntity {
                manager: self.to,
                features: buffer_views(features@),
                payment: payment@,
            }),
    {
        ContractCall::CreateEntity { manager: self.to, features, payment }
    }
}

impl DaoContractProxy for ContractProxy {
    fn direct_execute_endpoint(&self, actions: Vec<Action>) -> (r: ContractCall)
        ensures
            r@ == (ContractCallView::DirectExecute { dao: self.to, actions: actions@.map_values(|a: Action| a@) }),
    {
        ContractCall::DirectExecute { dao: self.to, actions }
    }
}

/// The call that has `dao` execute one action on itself.
pub open spec fn unilateral_call(dao: Address, endpoint: Seq<u8>, args: Seq<Seq<u8>>, gas_limit: u64) -> ContractCallView {
    ContractCallView::DirectExecute {
        dao,
        actions: seq![
            ActionView {
                destination: dao,
                endpoint,
                value: 0,
                payments: Seq::empty(),
                arguments: args,
                gas_limit,
            },
        ],
    }
}

/// The arguments of the plug the contract installs in a DAO.
pub open spec fn plug_args(contract: Address) -> Seq<Seq<u8>> {
    seq![
        contract.bytes@,
        minimal_be(DEFAULT_QUORUM as nat),
        minimal_be(DEFAULT_MIN_TO_PROPOSE as nat),
        seq![DEFAULT_PLUG_WEIGHT_DECIMALS],
    ]
}

/// The arguments describing payments of a permission: for each payment,
/// its token, its amount and its nonce's low byte.
pub open spec fn payment_args(ps: Seq<PaymentView>) -> Seq<Seq<u8>>
    decreases ps.len(),
{
    if ps.len() == 0 {
        Seq::empty()
    } else {
        let p = ps.last();
        payment_args(ps.drop_last()) + seq![
            p.token_identifier,
            minimal_be(p.amount),
            seq![(p.token_nonce % 256) as u8],
        ]
    }
}

/// The arguments of a new permission.
pub open spec fn permission_args(
    name: Seq<u8>,
    value: nat,
    destination: Address,
    endpoint: Seq<u8>,
    payments: Seq<PaymentView>,
) -> Seq<Seq<u8>> {
    seq![name, minimal_be(value), destination.bytes@, endpoint] + payment_args(payments)
}

/// The DAO endpoint that creates a policy of each kind.
pub open spec fn policy_endpoint(method: PolicyMethod) -> Seq<u8> {
    match method {
        PolicyMethod::Weight => "createPolicyWeighted".spec_bytes(),
        PolicyMethod::One => "createPolicyOne".spec_bytes(),
        PolicyMethod::All => "createPolicyAll".spec_bytes(),
        PolicyMethod::Quorum => "createPolicyQuorum".spec_bytes(),
        PolicyMethod::Majority => "createPolicyMajority".spec_bytes(),
    }
}

/// The arguments of a new policy; a quorum policy needs `quorum <= u64::MAX`.
pub open spec fn policy_args(
    method: PolicyMethod,
    role: Seq<u8>,
    permission: Seq<u8>,
    quorum: nat,
    voting_period_minutes: usize,
) -> Seq<Seq<u8>> {
    match method {
        PolicyMethod::Weight => seq![
            role,
            permission,
            minimal_be(quorum),
            seq![(voting_period_minutes % 256) as u8],
        ],
        PolicyMethod::Quorum => seq![role, permission, seq![(quorum % 256) as u8]],
        _ => seq![role, permission],
    }
}

/// The vote weight of `address` in the calling DAO: its delegations, or
/// zero for an unregistered address.
pub open spec fn vote_weight(m: CoalitionModel, dao: Address, address: Address) -> nat {
    let user = m.user_id(address);
    if user == 0 {
        0
    } else {
        (m.delegations)(slot(dao, user))
    }
}

fn bytes_of_u8(b: u8) -> (r: Vec<u8>)
    ensures
        r@ == seq![b],
{
    let mut r: Vec<u8> = Vec::new();
    r.push(b);
    assert(r@ =~= seq![b]);
    r
}

/// DAO creation and the actions the contract has DAOs execute.
pub trait DaoModule {
    /// Sets the DAO manager contract (admins only).
    fn init_dao_module_endpoint(&mut self, ctx: &CallContext, dao_manager: Address) -> Result<(), CoalitionError>;

    /// The vote weight the calling DAO gives `address`; the token is not used.
    fn get_dao_vote_weight_view(&self, ctx: &CallContext, address: Address, token: Option<Vec<u8>>) -> Amount;

    /// The members of a DAO with their weights; the token is not used.
    fn get_dao_members_view(&self, token: Option<Vec<u8>>) -> Vec<(Address, Amount)>;

    /// The call to the DAO manager that creates a DAO, paying `payment`.
    fn create_dao(&self, payment: EsdtPayment) -> Result<ContractCall, CoalitionError>;

    /// Records `dao`, which the DAO manager just created.
    fn register_created_dao(&mut self, dao: Address);

    /// The call that installs this contract as the plug of `dao`.
    fn configure_plug(&self, ctx: &CallContext, dao: Address) -> ContractCall;

    /// The call that creates a permission in `dao`.
    fn create_permission(
        &self,
        dao: Address,
        permission_name: Vec<u8>,
        value: Amount,
        destination: Address,
        endpoint: Vec<u8>,
        payments: Vec<EsdtPayment>,
    ) -> ContractCall;

    /// The call that creates a policy in `dao`.
    fn create_policy(
        &self,
        dao: Address,
        method: PolicyMethod,
        role: Vec<u8>,
        permission: Vec<u8>,
        quorum: Amount,
        voting_period_minutes: usize,
    ) -> Result<ContractCall, CoalitionError>;

    /// The call that has `dao` execute one action on itself.
    fn execute_unilateral_action(&self, dao: Address, endpoint: Vec<u8>, args: Vec<Vec<u8>>, gas_limit: u64) -> ContractCall;

    /// Fails unless the caller is a DAO created through this contract.
    fn require_caller_is_dao(&self, ctx: &CallContext) -> Result<(), CoalitionError>;
}

impl DaoModule for CoalitionState {
    fn init_dao_module_endpoint(&mut self, ctx: &CallContext, dao_manager: Address) -> (r: Result<(), CoalitionError>)
        ensures
            r is Ok <==> crate::config::caller_is_admin(old(self)@, *ctx),
            r is Err ==> r == Err::<(), CoalitionError>(CoalitionError::CallerNotAdmin) && final(self)@ == old(self)@,
            r is Ok ==> final(self)@ == old(self)@.with_dao_manager(Some(dao_manager)),
            storage_invariant(old(self)@) ==> storage_invariant(final(self)@),
    {
        proof {
            if storage_invariant(old(self)@) {
                law_settings_keep_invariant(old(self)@, dao_manager);
            }
        }
        crate::config::ConfigModule::require_caller_is_admin(self, ctx)?;
        self.set_dao_manager(dao_manager);
        Ok(())
    }

    fn get_dao_vote_weight_view(&self, ctx: &CallContext, address: Address, token: Option<Vec<u8>>) -> (r: Amount)
        ensures
            r@ == vote_weight(self@, ctx.caller, address),
    {
        let dao = ctx.caller;
        let user = self.user_id(&address);
        if user == 0 {
            return Amount::zero();
        }
        self.delegation(&UserSlot { dao, user })
    }

    fn get_dao_members_view(&self, token: Option<Vec<u8>>) -> (r: Vec<(Address, Amount)>)
        ensures
            r@.len() == 0,
    {
        Vec::new()
    }

    fn create_dao(&self, payment: EsdtPayment) -> (r: Result<ContractCall, CoalitionError>)
        ensures
            r is Err <==> self@.dao_manager is None,
            r matches Err(e) ==> e == CoalitionError::DaoManagerNotSet,
            r matches Ok(c) ==> c@ == (ContractCallView::CreateEntity {
                manager: self@.dao_manager->0,
                features: Seq::empty(),
                payment: payment@,
            }),
    {
        match self.dao_manager() {
            None => Err(CoalitionError::DaoManagerNotSet),
            Some(manager) => {
                let features: Vec<Vec<u8>> = Vec::new();
                let call = ContractProxy { to: manager }.create_entity_endpoint(features, payment);
                assert(buffer_views(features@) =~= Seq::empty());
                Ok(call)
            },
        }
    }

    fn register_created_dao(&mut self, dao: Address)
        ensures
            final(self)@ == old(self)@.with_daos(set_inserted(old(self)@.daos, dao)),
            storage_invariant(old(self)@) ==> storage_invariant(final(self)@),
    {
        proof {
            if storage_invariant(old(self)@) {
                law_settings_keep_invariant(old(self)@, dao);
            }
        }
        self.insert_dao(dao);
    }

    fn configure_plug(&self, ctx: &CallContext, dao: Address) -> (r: ContractCall)
        ensures
            r@ == unilateral_call(dao, "setPlug".spec_bytes(), plug_args(ctx.self_address), UNILATERAL_GAS_LIMIT),
    {
        let mut args: Vec<Vec<u8>> = Vec::new();
        args.push(ctx.self_address.to_vec());
        args.push(Amount::from_u64(DEFAULT_QUORUM).to_be_bytes());
        args.push(Amount::from_u64(DEFAULT_MIN_TO_PROPOSE).to_be_bytes());
        args.push(bytes_of_u8(DEFAULT_PLUG_WEIGHT_DECIMALS));
        assert(buffer_views(args@) =~= plug_args(ctx.self_address));
        self.execute_unilateral_action(dao, "setPlug".as_bytes_vec(), args, UNILATERAL_GAS_LIMIT)
    }

    fn create_permission(
        &self,
        dao: Address,
        permission_name: Vec<u8>,
        value: Amount,
        destination: Address,
        endpoint: Vec<u8>,
        payments: Vec<EsdtPayment>,
    ) -> (r: ContractCall)
        ensures
            r@ == unilateral_call(
                dao,
                "createPermission".spec_bytes(),
                permission_args(permission_name@, value@, destination, endpoint@, payment_views(payments@)),
                UNILATERAL_GAS_LIMIT,
            ),
    {
        let ghost head = seq![permission_name@, minimal_be(value@), destination.bytes@, endpoint@];
        let ghost ps = payment_views(payments@);
        let mut args: Vec<Vec<u8>> = Vec::new();
        args.push(permission_name);
        args.push(value.to_be_bytes());
        args.push(destination.to_vec());
        args.push(endpoint);
        assert(buffer_views(args@) =~= head + payment_args(ps.take(0)));
        let mut i: usize = 0;
        while i < payments.len()
            invariant
                i <= payments.len(),
                ps == payment_views(payments@),
                buffer_views(args@) == head + payment_args(ps.take(i as int)),
            decreases payments.len() - i,
        {
            let p = &payments[i];
            let ghost before = args@;
            let t = p.token_identifier.duplicate();
            let a = p.amount.to_be_bytes();
            let n = bytes_of_u8((p.token_nonce % 256) as u8);
            let ghost tri = seq![t@, a@, n@];
            args.push(t);
            args.push(a);
            args.push(n);
            proof {
                assert(buffer_views(args@) =~= buffer_views(before) + tri);
                assert(ps.take(i + 1).drop_last() =~= ps.take(i as int));
                assert(ps.take(i + 1).last() == p@);
                assert(payment_args(ps.take(i + 1)) == payment_args(ps.take(i as int)) + tri);
                assert(buffer_views(args@) =~= head + payment_args(ps.take(i + 1)));
            }
            i = i + 1;
        }
        assert(ps.take(payments@.len() as int) =~= ps);
        self.execute_unilateral_action(dao, "createPermission".as_bytes_vec(), args, UNILATERAL_GAS_LIMIT)
    }

    fn create_policy(
        &self,
        dao: Address,
        method: PolicyMethod,
        role: Vec<u8>,
        permission: Vec<u8>,
        quorum: Amount,
        voting_period_minutes: usize,
    ) -> (r: Result<ContractCall, CoalitionError>)
        ensures
            r is Err <==> method == PolicyMethod::Quorum && quorum@ > u64::MAX,
            r matches Err(e) ==> e == CoalitionError::Panic,
            r matches Ok(c) ==> c@ == unilateral_call(
                dao,
                policy_endpoint(method),
                policy_args(method, role@, permission@, quorum@, voting_period_minutes),
                UNILATERAL_GAS_LIMIT,
            ),
    {
        let endpoint = match method {
            PolicyMethod::Weight => "createPolicyWeighted".as_bytes_vec(),
            PolicyMethod::One => "createPolicyOne".as_bytes_vec(),
            PolicyMethod::All => "createPolicyAll".as_bytes_vec(),
            PolicyMethod::Quorum => "createPolicyQuorum".as_bytes_vec(),
            PolicyMethod::Majority => "createPolicyMajority".as_bytes_vec(),
        };
        let ghost rv = role@;
        let ghost pv = permission@;
        let mut args: Vec<Vec<u8>> = Vec::new();
        args.push(role);
        args.push(permission);
        if method == PolicyMethod::Weight {
            args.push(quorum.to_be_bytes());
            args.push(bytes_of_u8((voting_period_minutes % 256) as u8));
        }
        if method == PolicyMethod::Quorum {
            if !quorum.fits_u64() {
                return Err(CoalitionError::Panic);
            }
            args.push(bytes_of_u8(quorum.low_byte()));
        }
        assert(buffer_views(args@) =~= policy_args(method, rv, pv, quorum@, voting_period_minutes));
        Ok(self.execute_unilateral_action(dao, endpoint, args, UNILATERAL_GAS_LIMIT))
    }

    fn execute_unilateral_action(&self, dao: Address, endpoint: Vec<u8>, args: Vec<Vec<u8>>, gas_limit: u64) -> (r: ContractCall)
        ensures
            r@ == unilateral_call(dao, endpoint@, buffer_views(args@), gas_limit),
    {
        let action = Action {
            destination: dao,
            endpoint,
            value: Amount::zero(),
            payments: Vec::new(),
            arguments: args,
            gas_limit,
        };
        let mut actions: Vec<Action> = Vec::new();
        let ghost av = action@;
        actions.push(action);
        proof {
            assert(payment_views(Seq::<EsdtPayment>::empty()) =~= Seq::empty());
            assert(actions@.map_values(|a: Action| a@) =~= seq![av]);
        }
        ContractProxy { to: dao }.direct_execute_endpoint(actions)
    }

    fn require_caller_is_dao(&self, ctx: &CallContext) -> (r: Result<(), CoalitionError>)
        ensures
            r is Ok <==> self@.daos.contains(ctx.caller),
            r is Err ==> r == Err::<(), CoalitionError>(CoalitionError::CallerNotDao),
    {
        if self.is_dao(&ctx.caller) {
            Ok(())
        } else {
            Err(CoalitionError::CallerNotDao)
        }
    }
}

} // verus!
