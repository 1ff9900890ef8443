use vstd::prelude::*;
use vstd::string::*;

use crate::address::{Address, Member, UserSlot};
use crate::amount::Amount;
use crate::dao::{permission_args, policy_args, policy_endpoint, unilateral_call, DaoModule, UNILATERAL_GAS_LIMIT};
use crate::laws::{law_board_changes_keep_invariant, law_settings_keep_invariant, storage_invariant};
use crate::state::{slot, CoalitionModel, CoalitionState};
use crate::storage::{lemma_swap_remove_undoes_insert, set_inserted, updated};
use crate::types::{call_views, CallContext, CoalitionError, ContractCall, ContractCallView, EsdtPayment, PolicyMethod};

verus! {

/// The DAO role given to board members.
pub open spec fn board_role() -> Seq<u8> {
    "board".spec_bytes()
}

/// The DAO permission that lets the board act through this contract.
pub open spec fn board_permission() -> Seq<u8> {
    "interactCoalition".spec_bytes()
}

/// The call that gives `address` the board role in `dao`.
pub open spec fn assign_board_role_call(dao: Address, address: Address) -> ContractCallView {
    unilateral_call(dao, "assignRole".spec_bytes(), seq![board_role(), address.bytes@], UNILATERAL_GAS_LIMIT)
}

/// The storage with `address` registered and on the board of `dao`.
pub open spec fn with_board_member(m: CoalitionModel, dao: Address, address: Address) -> CoalitionModel {
    let u = m.user_id_after_register(address);
    m.with_user(address).with_board_members(updated(m.board_members, dao, set_inserted((m.board_members)(dao), u)))
}

/// The calls that let the board of `dao` act through the contract at `contract`.
pub open spec fn board_permission_calls(dao: Address, contract: Address) -> Seq<ContractCallView> {
    seq![
        unilateral_call(
            dao,
            "createPermission".spec_bytes(),
            permission_args(board_permission(), 0, contract, Seq::empty(), Seq::empty()),
            UNILATERAL_GAS_LIMIT,
        ),
        unilateral_call(
            dao,
            policy_endpoint(PolicyMethod::Majority),
            policy_args(PolicyMethod::Majority, board_role(), board_permission(), 0, 0),
            UNILATERAL_GAS_LIMIT,
        ),
    ]
}

/// Why the calling DAO cannot accept `address` on its board, if it cannot.
pub open spec fn accept_error(m: CoalitionModel, ctx: CallContext, address: Address) -> Option<CoalitionError> {
    let dao = ctx.caller;
    let s = slot(dao, m.user_id_after_register(address));
    let needed_until = ctx.block_timestamp + (m.board_stake_duration)(dao);
    if !m.daos.contains(dao) {
        Some(CoalitionError::CallerNotDao)
    } else if (m.stakes)(s) < (m.board_stake_amount)(dao) {
        Some(CoalitionError::InsufficientStake)
    } else if needed_until > u64::MAX {
        Some(CoalitionError::Panic)
    } else if !((m.unlock_time)(s) > needed_until) {
        Some(CoalitionError::StakeUnlocksTooEarly)
    } else {
        None
    }
}

/// Why the calling DAO cannot unlock the stake of `address`, if it cannot.
pub open spec fn unlock_error(m: CoalitionModel, ctx: CallContext, address: Address) -> Option<CoalitionError> {
    if !m.daos.contains(ctx.caller) {
        Some(CoalitionError::CallerNotDao)
    } else if !(m.board_members)(ctx.caller).contains(m.user_id_after_register(address)) {
        Some(CoalitionError::NotBoardMember)
    } else {
        None
    }
}

/// The storage after the calling DAO unlocks the stake of its board member `address`.
pub open spec fn unlocked(m: CoalitionModel, dao: Address, address: Address) -> CoalitionModel {
    let s = slot(dao, m.user_id_after_register(address));
    m.with_user(address).with_unlock_time(updated(m.unlock_time, s, 0))
}

/// The board: members with enough stake, locked long enough.
pub trait BoardModule {
    /// Sets the stake the calling DAO asks of board members.
    fn set_board_min_stake_endpoint(&mut self, ctx: &CallContext, amount: Amount) -> Result<(), CoalitionError>;

    /// Sets how long past now a board member's stake must stay locked.
    fn set_board_min_stake_duration_endpoint(&mut self, ctx: &CallContext, duration: u64) -> Result<(), CoalitionError>;

    /// Accepts `address` on the calling DAO's board; gives the role assignment call.
    fn accept_board_member_endpoint(&mut self, ctx: &CallContext, address: Address) -> Result<ContractCall, CoalitionError>;

    /// Unlocks the stake of the board member `address` of the calling DAO.
    fn unlock_board_member_endpoint(&mut self, ctx: &CallContext, address: Address) -> Result<(), CoalitionError>;

    /// Puts `address` on the board of `dao`; gives the role assignment call.
    fn add_board_member(&mut self, dao: Address, address: Address) -> ContractCall;

    /// The calls that create the board's permission and policy in `dao`.
    fn configure_board_permissions(&self, ctx: &CallContext, dao: Address) -> Result<Vec<ContractCall>, CoalitionError>;
}

impl BoardModule for CoalitionState {
    fn set_board_min_stake_endpoint(&mut self, ctx: &CallContext, amount: Amount) -> (r: Result<(), CoalitionError>)
        ensures
            r is Ok <==> old(self)@.daos.contains(ctx.caller),
            r is Err ==> r == Err::<(), CoalitionError>(CoalitionError::CallerNotDao) && final(self)@ == old(self)@,
            r is Ok ==> final(self)@ == old(self)@.with_board_stake_amount(
                updated(old(self)@.board_stake_amount, ctx.caller, amount@),
            ),
            storage_invariant(old(self)@) ==> storage_invariant(final(self)@),
    {
        proof {
            if storage_invariant(old(self)@) {
                law_settings_keep_invariant(old(self)@, ctx.caller);
            }
        }
        self.require_caller_is_dao(ctx)?;
        self.set_board_stake_amount(ctx.caller, amount);
        Ok(())
    }

    fn set_board_min_stake_duration_endpoint(&mut self, ctx: &CallContext, duration: u64) -> (r: Result<(), CoalitionError>)
        ensures
            r is Ok <==> old(self)@.daos.contains(ctx.caller),
            r is Err ==> r == Err::<(), CoalitionError>(CoalitionError::CallerNotDao) && final(self)@ == old(self)@,
            r is Ok ==> final(self)@ == old(self)@.with_board_stake_duration(
                updated(old(self)@.board_stake_duration, ctx.caller, duration),
            ),
            storage_invariant(old(self)@) ==> storage_invariant(final(self)@),
    {
        proof {
            if storage_invariant(old(self)@) {
                law_settings_keep_invariant(old(self)@, ctx.caller);
            }
        }
        self.require_caller_is_dao(ctx)?;
        self.set_board_stake_duration(ctx.caller, duration);
        Ok(())
    }

    fn accept_board_member_endpoint(&mut self, ctx: &CallContext, address: Address) -> (r: Result<
        ContractCall,
        CoalitionError,
    >)
        ensures
            r is Err <==> accept_error(old(self)@, *ctx, address) is Some,
            r matches Err(e) ==> Some(e) == accept_error(old(self)@, *ctx, address) && final(self)@ == old(self)@,
            r matches Ok(c) ==> final(self)@ == with_board_member(old(self)@, ctx.caller, address)
                && c@ == assign_board_role_call(ctx.caller, address),
            storage_invariant(old(self)@) ==> storage_invariant(final(self)@),
    {
        self.require_caller_is_dao(ctx)?;
        let dao = ctx.caller;
        let known = self.user_id(&address) != 0;
        let user = self.get_or_create_user(&address);
        proof {
            if storage_invariant(old(self)@) {
                law_board_changes_keep_invariant(old(self)@, dao, address);
            }
        }
        let s = UserSlot { dao, user };
        let user_stake = self.stake(&s);
        let board_stake_amount = self.board_stake_amount(&dao);
        let failure = if !user_stake.ge(&board_stake_amount) {
            Some(CoalitionError::InsufficientStake)
        } else {
            let current_time = ctx.block_timestamp;
            let staked_locked_until = self.unlock_time(&s);
            let board_stake_duration = self.board_stake_duration(&dao);
            match current_time.checked_add(board_stake_duration) {
                None => Some(CoalitionError::Panic),
                Some(needed) => if staked_locked_until > needed {
                    None
                } else {
                    Some(CoalitionError::StakeUnlocksTooEarly)
                },
            }
        };
        if let Some(e) = failure {
            if !known {
                self.forget_user(&address);
                proof {
                    lemma_swap_remove_undoes_insert(old(self)@.users, address);
                }
            }
            assert(self@ =~= old(self)@);
            return Err(e);
        }
        let call = self.add_board_member(dao, address);
        proof {
            crate::state::lemma_register_twice(old(self)@, address);
        }
        assert(self@ =~= with_board_member(old(self)@, dao, address));
        Ok(call)
    }

    fn unlock_board_member_endpoint(&mut self, ctx: &CallContext, address: Address) -> (r: Result<(), CoalitionError>)
        ensures
            r is Err <==> unlock_error(old(self)@, *ctx, address) is Some,
            r matches Err(e) ==> Some(e) == unlock_error(old(self)@, *ctx, address) && final(self)@ == old(self)@,
            r is Ok ==> final(self)@ == unlocked(old(self)@, ctx.caller, address),
            storage_invariant(old(self)@) ==> storage_invariant(final(self)@),
    {
        self.require_caller_is_dao(ctx)?;
        let dao = ctx.caller;
        let known = self.user_id(&address) != 0;
        let user = self.get_or_create_user(&address);
        proof {
            if storage_invariant(old(self)@) {
                law_board_changes_keep_invariant(old(self)@, dao, address);
            }
        }
        if !self.is_board_member(&dao, user) {
            if !known {
                self.forget_user(&address);
                proof {
                    lemma_swap_remove_undoes_insert(old(self)@.users, address);
                }
            }
            assert(self@ =~= old(self)@);
            return Err(CoalitionError::NotBoardMember);
        }
        self.set_unlock_time(UserSlot { dao, user }, 0);
        assert(self@ =~= unlocked(old(self)@, dao, address));
        Ok(())
    }

    fn add_board_member(&mut self, dao: Address, address: Address) -> (r: ContractCall)
        ensures
            final(self)@ == with_board_member(old(self)@, dao, address),
            r@ == assign_board_role_call(dao, address),
            old(self)@.users.contains(address) || old(self)@.users.len() < usize::MAX,
            storage_invariant(old(self)@) ==> storage_invariant(final(self)@),
    {
        let user = self.get_or_create_user(&address);
        proof {
            if storage_invariant(old(self)@) {
                law_board_changes_keep_invariant(old(self)@, dao, address);
            }
        }
        let endpoint = "assignRole".as_bytes_vec();
        let mut args: Vec<Vec<u8>> = Vec::new();
        args.push("board".as_bytes_vec());
        args.push(address.to_vec());
        assert(crate::types::buffer_views(args@) =~= seq![board_role(), address.bytes@]);
        let call = self.execute_unilateral_action(dao, endpoint, args, UNILATERAL_GAS_LIMIT);
        self.insert_board_member(dao, user);
        call
    }

    fn configure_board_permissions(&self, ctx: &CallContext, dao: Address) -> (r: Result<Vec<ContractCall>, CoalitionError>)
        ensures
            r matches Ok(calls) && call_views(calls@) == board_permission_calls(dao, ctx.self_address),
    {
        let permission = "interactCoalition".as_bytes_vec();
        let contract = ctx.self_address;
        let endpoint: Vec<u8> = Vec::new();
        let payments: Vec<EsdtPayment> = Vec::new();
        proof {
            assert(endpoint@ =~= Seq::<u8>::empty());
            assert(crate::types::payment_views(payments@) =~= Seq::empty());
        }
        let first = self.create_permission(
            dao,
            permission.duplicate(),
            Amount::zero(),
            contract,
            endpoint,
            payments,
        );
        let role = "board".as_bytes_vec();
        let second = self.create_policy(dao, PolicyMethod::Majority, role, permission, Amount::zero(), 0)?;
        let ghost v1 = first@;
        let ghost v2 = second@;
        let mut calls: Vec<ContractCall> = Vec::new();
        calls.push(first);
        calls.push(second);
        assert(call_views(calls@) =~= seq![v1, v2]);
        Ok(calls)
    }
}

} // verus!
