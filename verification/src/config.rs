use vstd::prelude::*;

use crate::address::{Address, Member, UserSlot};
use crate::amount::Amount;
use crate::state::{slot, CoalitionModel, CoalitionState};
use crate::storage::{set_inserted, set_swap_removed, views_of};
use crate::laws::{law_settings_keep_invariant, storage_invariant};
use crate::types::{CallContext, CoalitionError, UserId};

verus! {

/// Whether the caller may administer the contract: a listed admin, or the owner.
pub open spec fn caller_is_admin(m: CoalitionModel, ctx: CallContext) -> bool {
    m.admins.contains(ctx.caller) || ctx.owner == ctx.caller
}

/// Administration: admins and the staked token.
pub trait ConfigModule {
    /// Sets the token that is staked (admins only).
    fn init_config_module_endpoint(&mut self, ctx: &CallContext, native_token: Vec<u8>) -> Result<(), CoalitionError>;

    /// Adds an admin (admins only).
    fn add_admin_endpoint(&mut self, ctx: &CallContext, address: Address) -> Result<(), CoalitionError>;

    /// Removes an admin (admins only).
    fn remove_admin_endpoint(&mut self, ctx: &CallContext, address: Address) -> Result<(), CoalitionError>;

    /// Fails unless the caller is an admin or the owner.
    fn require_caller_is_admin(&self, ctx: &CallContext) -> Result<(), CoalitionError>;

    /// The admins, in storage order.
    fn get_admins(&self) -> Vec<Address>;

    /// How many data items `user` delegated to `dao`.
    fn get_dao_weight(&self, dao: Address, user: UserId) -> Amount;
}

impl ConfigModule for CoalitionState {
    fn init_config_module_endpoint(&mut self, ctx: &CallContext, native_token: Vec<u8>) -> (r: Result<(), CoalitionError>)
        ensures
            r is Ok <==> caller_is_admin(old(self)@, *ctx),
            r is Err ==> r == Err::<(), CoalitionError>(CoalitionError::CallerNotAdmin) && final(self)@ == old(self)@,
            r is Ok ==> final(self)@ == old(self)@.with_native_token(native_token@),
            storage_invariant(old(self)@) ==> storage_invariant(final(self)@),
    {
        proof {
            if storage_invariant(old(self)@) {
                law_settings_keep_invariant(old(self)@, ctx.caller);
            }
        }
        self.require_caller_is_admin(ctx)?;
        self.set_native_token(native_token);
        Ok(())
    }

    fn add_admin_endpoint(&mut self, ctx: &CallContext, address: Address) -> (r: Result<(), CoalitionError>)
        ensures
            r is Ok <==> caller_is_admin(old(self)@, *ctx),
            r is Err ==> r == Err::<(), CoalitionError>(CoalitionError::CallerNotAdmin) && final(self)@ == old(self)@,
            r is Ok ==> final(self)@ == old(self)@.with_admins(set_inserted(old(self)@.admins, address)),
            storage_invariant(old(self)@) ==> storage_invariant(final(self)@),
    {
        proof {
            if storage_invariant(old(self)@) {
                law_settings_keep_invariant(old(self)@, address);
            }
        }
        self.require_caller_is_admin(ctx)?;
        self.insert_admin(address);
        Ok(())
    }

    fn remove_admin_endpoint(&mut self, ctx: &CallContext, address: Address) -> (r: Result<(), CoalitionError>)
        ensures
            r is Ok <==> caller_is_admin(old(self)@, *ctx),
            r is Err ==> r == Err::<(), CoalitionError>(CoalitionError::CallerNotAdmin) && final(self)@ == old(self)@,
            r is Ok ==> final(self)@ == old(self)@.with_admins(set_swap_removed(old(self)@.admins, address)),
            storage_invariant(old(self)@) ==> storage_invariant(final(self)@),
    {
        proof {
            if storage_invariant(old(self)@) {
                law_settings_keep_invariant(old(self)@, address);
            }
        }
        self.require_caller_is_admin(ctx)?;
        self.remove_admin(&address);
        Ok(())
    }

    fn require_caller_is_admin(&self, ctx: &CallContext) -> (r: Result<(), CoalitionError>)
        ensures
            r is Ok <==> caller_is_admin(self@, *ctx),
            r is Err ==> r == Err::<(), CoalitionError>(CoalitionError::CallerNotAdmin),
    {
        let is_admin = self.is_admin(&ctx.caller);
        let is_owner = ctx.owner.same(&ctx.caller);
        if is_admin || is_owner {
            Ok(())
        } else {
            Err(CoalitionError::CallerNotAdmin)
        }
    }

    fn get_admins(&self) -> (r: Vec<Address>)
        ensures
            views_of(r@) == self@.admins,
    {
        self.admin_list()
    }

    fn get_dao_weight(&self, dao: Address, user: UserId) -> (r: Amount)
        ensures
            r@ == (self@.delegations)(slot(dao, user)),
    {
        self.delegation(&UserSlot { dao, user })
    }
}

} // verus!
