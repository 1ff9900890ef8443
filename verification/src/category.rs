use vstd::prelude::*;

use crate::address::Address;
use crate::dao::DaoModule;
use crate::laws::{law_category_changes_keep_invariant, storage_invariant};
use crate::state::CoalitionState;
use crate::storage::{set_inserted, set_swap_removed, updated};
use crate::types::{CallContext, CoalitionError};

verus! {

/// The data categories a DAO accepts delegations in.
pub trait CategoryModule {
    /// Adds a category to the calling DAO.
    fn add_category_endpoint(&mut self, ctx: &CallContext, name: Vec<u8>) -> Result<(), CoalitionError>;

    /// Removes a category from the calling DAO.
    fn remove_category_endpoint(&mut self, ctx: &CallContext, name: Vec<u8>) -> Result<(), CoalitionError>;

    /// Fails unless `dao` has the category `name`.
    fn require_category_exists(&self, dao: &Address, name: &Vec<u8>) -> Result<(), CoalitionError>;
}

impl CategoryModule for CoalitionState {
    fn add_category_endpoint(&mut self, ctx: &CallContext, name: Vec<u8>) -> (r: Result<(), CoalitionError>)
        ensures
            !old(self)@.daos.contains(ctx.caller) ==> r == Err::<(), CoalitionError>(CoalitionError::CallerNotDao),
            old(self)@.daos.contains(ctx.caller) && (old(self)@.categories)(ctx.caller).contains(name@) ==> r == Err::<
                (),
                CoalitionError,
            >(CoalitionError::CategoryAlreadyExists),
            r is Ok <==> old(self)@.daos.contains(ctx.caller) && !(old(self)@.categories)(ctx.caller).contains(name@),
            r is Err ==> final(self)@ == old(self)@,
            r is Ok ==> final(self)@ == old(self)@.with_categories(
                updated(old(self)@.categories, ctx.caller, set_inserted((old(self)@.categories)(ctx.caller), name@)),
            ),
            storage_invariant(old(self)@) ==> storage_invariant(final(self)@),
    {
        proof {
            if storage_invariant(old(self)@) {
                law_category_changes_keep_invariant(old(self)@, ctx.caller, name@);
            }
        }
        self.require_caller_is_dao(ctx)?;
        let dao = ctx.caller;
        if self.has_category(&dao, &name) {
            return Err(CoalitionError::CategoryAlreadyExists);
        }
        self.insert_category(dao, name);
        Ok(())
    }

    fn remove_category_endpoint(&mut self, ctx: &CallContext, name: Vec<u8>) -> (r: Result<(), CoalitionError>)
        ensures
            !old(self)@.daos.contains(ctx.caller) ==> r == Err::<(), CoalitionError>(CoalitionError::CallerNotDao),
            old(self)@.daos.contains(ctx.caller) && !(old(self)@.categories)(ctx.caller).contains(name@) ==> r == Err::<
                (),
                CoalitionError,
            >(CoalitionError::CategoryDoesNotExist),
            r is Ok <==> old(self)@.daos.contains(ctx.caller) && (old(self)@.categories)(ctx.caller).contains(name@),
            r is Err ==> final(self)@ == old(self)@,
            r is Ok ==> final(self)@ == old(self)@.with_categories(
                updated(old(self)@.categories, ctx.caller, set_swap_removed((old(self)@.categories)(ctx.caller), name@)),
            ),
            storage_invariant(old(self)@) ==> storage_invariant(final(self)@),
    {
        proof {
            if storage_invariant(old(self)@) {
                law_category_changes_keep_invariant(old(self)@, ctx.caller, name@);
            }
        }
        self.require_caller_is_dao(ctx)?;
        let dao = ctx.caller;
        self.require_category_exists(&dao, &name)?;
        self.remove_category(dao, &name);
        Ok(())
    }

    fn require_category_exists(&self, dao: &Address, name: &Vec<u8>) -> (r: Result<(), CoalitionError>)
        ensures
            r is Ok <==> (self@.categories)(*dao).contains(name@),
            r is Err ==> r == Err::<(), CoalitionError>(CoalitionError::CategoryDoesNotExist),
    {
        if self.has_category(dao, name) {
            Ok(())
        } else {
            Err(CoalitionError::CategoryDoesNotExist)
        }
    }
}

} // verus!
