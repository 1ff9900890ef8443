use vstd::prelude::*;
use vstd::string::*;

use crate::address::{zero_address, Address, UserSlot};
use crate::aggregate::AggregateModule;
use crate::amount::Amount;
use crate::board::{assign_board_role_call, board_permission_calls, with_board_member, BoardModule};
use crate::category::CategoryModule;
use crate::dao::{plug_args, unilateral_call, DaoModule, UNILATERAL_GAS_LIMIT};
use crate::laws::{
    law_coalition_creation_keeps_invariant, law_delegation_bookkeeping_keeps_invariant, law_settings_keep_invariant,
    storage_invariant,
};
use crate::state::{slot, CoalitionModel, CoalitionState};
use crate::storage::{set_inserted, set_swap_removed, updated};
use crate::types::{
    call_views, nft_views, payment_views, AppId, CallContext, CoalitionError, ContractCall, ContractCallView,
    EsdtPayment, Info, InfoView, Transfer, TransferView,
};

verus! {

/// The storage with `dao` staking `native_token` with a lock of `stake_lock_time` seconds.
pub open spec fn staking_configured(m: CoalitionModel, dao: Address, native_token: Seq<u8>, stake_lock_time: u64) -> CoalitionModel {
    m.with_staking_tokens(updated(m.staking_tokens, dao, native_token)).with_stake_lock_time(
        updated(m.stake_lock_time, dao, stake_lock_time),
    )
}

/// The storage with `dao` made a coalition of application `app_id`, staking
/// `native_token` with a lock of `stake_lock_time` seconds.
pub open spec fn coalition_configured(
    m: CoalitionModel,
    dao: Address,
    app_id: AppId,
    native_token: Seq<u8>,
    stake_lock_time: u64,
) -> CoalitionModel {
    staking_configured(m.with_coalitions(updated(m.coalitions, dao, Some(app_id))), dao, native_token, stake_lock_time)
}

/// The storage after `creator` created the coalition `dao` through this contract.
pub open spec fn coalition_created(
    m: CoalitionModel,
    dao: Address,
    app_id: AppId,
    native_token: Seq<u8>,
    stake_lock_time: u64,
    creator: Address,
) -> CoalitionModel {
    with_board_member(
        coalition_configured(m.with_daos(set_inserted(m.daos, dao)), dao, app_id, native_token, stake_lock_time),
        dao,
        creator,
    )
}

/// The calls a newly created coalition makes its DAO execute: install the
/// plug, give the creator the board role, and set up the board's permission.
pub open spec fn creation_calls(dao: Address, creator: Address, contract: Address) -> Seq<ContractCallView> {
    seq![
        unilateral_call(dao, "setPlug".spec_bytes(), plug_args(contract), UNILATERAL_GAS_LIMIT),
        assign_board_role_call(dao, creator),
    ] + board_permission_calls(dao, contract)
}

/// The storage after the aggregator answered a delegation by `caller`.
pub open spec fn after_grant(m: CoalitionModel, caller: Address, dao: Address, count: nat, succeeded: bool) -> CoalitionModel {
    if succeeded {
        let u = m.user_id(caller);
        let s = slot(dao, u);
        m.with_delegators(updated(m.delegators, dao, set_inserted((m.delegators)(dao), u))).with_delegations(
            updated(m.delegations, s, (m.delegations)(s) + count),
        )
    } else {
        m
    }
}

/// Whether answering a successful undelegation faults: the caller has nothing delegated.
pub open spec fn revoke_faults(m: CoalitionModel, caller: Address, dao: Address, succeeded: bool) -> bool {
    succeeded && (m.delegations)(slot(dao, m.user_id(caller))) == 0
}

/// The storage after the aggregator answered an undelegation by `caller`.
pub open spec fn after_revoke(m: CoalitionModel, caller: Address, dao: Address, succeeded: bool) -> CoalitionModel {
    if succeeded {
        let u = m.user_id(caller);
        let s = slot(dao, u);
        let left = ((m.delegations)(s) - 1) as nat;
        let m1 = m.with_delegations(updated(m.delegations, s, left));
        if left == 0 {
            m1.with_delegators(updated(m.delegators, dao, set_swap_removed((m.delegators)(dao), u)))
        } else {
            m1
        }
    } else {
        m
    }
}

/// The summary of `dao`, and of the stake of `address` (the zero address when absent).
pub open spec fn info_of(m: CoalitionModel, dao: Address, address: Option<Address>) -> InfoView {
    let a = match address {
        Some(a) => a,
        None => zero_address(),
    };
    let s = slot(dao, m.user_id(a));
    InfoView {
        native_token: m.native_token,
        aggregator: m.data_aggregator->0,
        aggregator_app: match (m.coalitions)(dao) {
            Some(id) => id,
            None => 0,
        },
        categories: (m.categories)(dao),
        delegators: (m.delegators)(dao).len() as usize,
        board_stake_amount: (m.board_stake_amount)(dao),
        board_stake_duration: (m.board_stake_duration)(dao),
        stake_lock_time: (m.stake_lock_time)(dao),
        user_stake: (m.stakes)(s),
        user_stake_unlocks_at: (m.unlock_time)(s),
    }
}

/// The contract's own endpoints: set-up, coalition creation, and granting
/// and revoking access to data.
pub trait DataCoalition {
    /// Makes the deployer an admin.
    fn init(&mut self, ctx: &CallContext);

    /// Keeps the storage as it is.
    fn upgrade(&mut self);

    /// Completes the creation of a coalition, once the DAO manager created
    /// `dao` and the aggregator registered it as application `app_id`:
    /// fails as the creation does when either contract is not set, records
    /// `dao` as created here, and gives the calls the new DAO must execute,
    /// in order.
    fn create_endpoint(
        &mut self,
        ctx: &CallContext,
        dao: Address,
        app_id: AppId,
        native_token: Vec<u8>,
        stake_lock_time: u64,
    ) -> Result<Vec<ContractCall>, CoalitionError>;

    /// Makes an existing DAO a coalition, once the aggregator registered it
    /// as application `app_id`; fails when the aggregator is not set.
    fn create_external_endpoint(
        &mut self,
        ctx: &CallContext,
        dao: Address,
        app_id: AppId,
        native_token: Vec<u8>,
        stake_lock_time: u64,
    ) -> Result<(), CoalitionError>;

    /// Records the token `dao` stakes and its lock time; the token the
    /// stake endpoint accepts stays the one admins set.
    fn configure_staking(&mut self, dao: Address, native_token: Vec<u8>, stake_lock_time: u64);

    /// The call that delegates the caller's `transfers` to `dao` in `category`.
    fn grant_access_endpoint(
        &self,
        ctx: &CallContext,
        dao: Address,
        category: Vec<u8>,
        transfers: Vec<EsdtPayment>,
    ) -> Result<ContractCall, CoalitionError>;

    /// Books the aggregator's answer to a delegation of `payment_count` items;
    /// gives the transfer that refunds what the aggregator sent back, if anything.
    fn grant_access_callback(
        &mut self,
        caller: Address,
        payment_count: usize,
        dao: Address,
        succeeded: bool,
        back_transfers: Vec<EsdtPayment>,
    ) -> Option<Transfer>;

    /// The call that takes the data NFT `collection`/`nonce` back from `dao`.
    fn revoke_access_endpoint(&self, ctx: &CallContext, dao: Address, collection: Vec<u8>, nonce: u64) -> Result<
        ContractCall,
        CoalitionError,
    >;

    /// Books the aggregator's answer to an undelegation.
    fn revoke_access_callback(&mut self, caller: Address, dao: Address, succeeded: bool) -> Result<
        (),
        CoalitionError,
    >;

    /// A summary of `dao`, and of the stake of `address` in it.
    fn get_info_view(&self, dao: Address, address: Option<Address>) -> Result<Info, CoalitionError>;
}

impl DataCoalition for CoalitionState {
    fn init(&mut self, ctx: &CallContext)
        ensures
            final(self)@ == old(self)@.with_admins(set_inserted(old(self)@.admins, ctx.caller)),
            storage_invariant(old(self)@) ==> storage_invariant(final(self)@),
    {
        proof {
            if storage_invariant(old(self)@) {
                law_settings_keep_invariant(old(self)@, ctx.caller);
            }
        }
        self.insert_admin(ctx.caller);
    }

    fn upgrade(&mut self)
        ensures
            final(self)@ == old(self)@,
            storage_invariant(old(self)@) ==> storage_invariant(final(self)@),
    {
    }

    fn create_endpoint(
        &mut self,
        ctx: &CallContext,
        dao: Address,
        app_id: AppId,
        native_token: Vec<u8>,
        stake_lock_time: u64,
    ) -> (r: Result<Vec<ContractCall>, CoalitionError>)
        ensures
            old(self)@.dao_manager is None ==> r == Err::<Vec<ContractCall>, CoalitionError>(
                CoalitionError::DaoManagerNotSet,
            ),
            old(self)@.dao_manager is Some && old(self)@.data_aggregator is None ==> r == Err::<
                Vec<ContractCall>,
                CoalitionError,
            >(CoalitionError::DataAggregatorNotSet),
            r is Ok <==> old(self)@.dao_manager is Some && old(self)@.data_aggregator is Some,
            r is Err ==> final(self)@ == old(self)@,
            r matches Ok(calls) ==> call_views(calls@) == creation_calls(dao, ctx.caller, ctx.self_address)
                && final(self)@ == coalition_created(old(self)@, dao, app_id, native_token@, stake_lock_time, ctx.caller),
            storage_invariant(old(self)@) ==> storage_invariant(final(self)@),
    {
        let ghost tv = native_token@;
        if self.dao_manager().is_none() {
            return Err(CoalitionError::DaoManagerNotSet);
        }
        if self.data_aggregator().is_none() {
            return Err(CoalitionError::DataAggregatorNotSet);
        }
        self.register_created_dao(dao);
        self.insert_coalition(dao, app_id);
        self.configure_staking(dao, native_token, stake_lock_time);
        let plug = self.configure_plug(ctx, dao);
        let role = self.add_board_member(dao, ctx.caller);
        let permissions = self.configure_board_permissions(ctx, dao)?;
        let ghost pv = plug@;
        let ghost rv = role@;
        let ghost rest = call_views(permissions@);
        let mut calls: Vec<ContractCall> = Vec::new();
        calls.push(plug);
        calls.push(role);
        let mut permissions = permissions;
        calls.append(&mut permissions);
        assert(call_views(calls@) =~= seq![pv, rv] + rest);
        proof {
            if storage_invariant(old(self)@) {
                law_coalition_creation_keeps_invariant(old(self)@, dao, app_id, tv, stake_lock_time, ctx.caller);
            }
        }
        Ok(calls)
    }

    fn create_external_endpoint(
        &mut self,
        ctx: &CallContext,
        dao: Address,
        app_id: AppId,
        native_token: Vec<u8>,
        stake_lock_time: u64,
    ) -> (r: Result<(), CoalitionError>)
        ensures
            r is Err <==> old(self)@.data_aggregator is None,
            r is Err ==> r == Err::<(), CoalitionError>(CoalitionError::DataAggregatorNotSet) && final(self)@ == old(
                self,
            )@,
            r is Ok ==> final(self)@ == coalition_configured(old(self)@, dao, app_id, native_token@, stake_lock_time),
            storage_invariant(old(self)@) ==> storage_invariant(final(self)@),
    {
        proof {
            if storage_invariant(old(self)@) {
                law_settings_keep_invariant(old(self)@, dao);
                let c = old(self)@.with_coalitions(updated(old(self)@.coalitions, dao, Some(app_id)));
                law_settings_keep_invariant(c, dao);
            }
        }
        if self.data_aggregator().is_none() {
            return Err(CoalitionError::DataAggregatorNotSet);
        }
        self.insert_coalition(dao, app_id);
        self.configure_staking(dao, native_token, stake_lock_time);
        Ok(())
    }

    fn configure_staking(&mut self, dao: Address, native_token: Vec<u8>, stake_lock_time: u64)
        ensures
            final(self)@ == staking_configured(old(self)@, dao, native_token@, stake_lock_time),
            storage_invariant(old(self)@) ==> storage_invariant(final(self)@),
    {
        proof {
            if storage_invariant(old(self)@) {
                law_settings_keep_invariant(old(self)@, dao);
            }
        }
        self.set_staking_token(dao, native_token);
        self.set_stake_lock_time(dao, stake_lock_time);
    }

    fn grant_access_endpoint(
        &self,
        ctx: &CallContext,
        dao: Address,
        category: Vec<u8>,
        transfers: Vec<EsdtPayment>,
    ) -> (r: Result<ContractCall, CoalitionError>)
        ensures
            !(self@.categories)(dao).contains(category@) ==> r == Err::<ContractCall, CoalitionError>(
                CoalitionError::CategoryDoesNotExist,
            ),
            (self@.categories)(dao).contains(category@) && self@.data_aggregator is None ==> r == Err::<
                ContractCall,
                CoalitionError,
            >(CoalitionError::StorageDecodeBadLength),
            (self@.categories)(dao).contains(category@) && self@.data_aggregator is Some && (self@.coalitions)(
                dao,
            ) is None ==> r == Err::<ContractCall, CoalitionError>(CoalitionError::Panic),
            r is Ok <==> (self@.categories)(dao).contains(category@) && self@.data_aggregator is Some && (
            self@.coalitions)(dao) is Some,
            r matches Ok(c) ==> c@ == (ContractCallView::Delegate {
                aggregator: self@.data_aggregator->0,
                app_id: (self@.coalitions)(dao)->0,
                segment: category@,
                user: Some(ctx.caller),
                transfers: payment_views(transfers@),
            }),
    {
        self.require_category_exists(&dao, &category)?;
        self.delegate_aggregator(dao, ctx.caller, category, transfers)
    }

    fn grant_access_callback(
        &mut self,
        caller: Address,
        payment_count: usize,
        dao: Address,
        succeeded: bool,
        back_transfers: Vec<EsdtPayment>,
    ) -> (r: Option<Transfer>)
        ensures
            r is None <==> back_transfers@.len() == 0,
            r matches Some(t) ==> t@ == (TransferView {
                to: caller,
                payments: payment_views(back_transfers@),
            }),
            final(self)@ == after_grant(old(self)@, caller, dao, payment_count as nat, succeeded),
            storage_invariant(old(self)@) ==> storage_invariant(final(self)@),
    {
        proof {
            if storage_invariant(old(self)@) {
                law_delegation_bookkeeping_keeps_invariant(old(self)@, caller, dao, payment_count as nat, succeeded);
            }
        }
        let refund = if back_transfers.len() == 0 {
            None
        } else {
            Some(Transfer { to: caller, payments: back_transfers })
        };
        let user = self.user_id(&caller);
        if succeeded {
            self.insert_delegator(dao, user);
            let s = UserSlot { dao, user };
            let total = self.delegation(&s).add(&Amount::from_u64(payment_count as u64));
            self.set_delegation(s, total);
        }
        refund
    }

    fn revoke_access_endpoint(&self, ctx: &CallContext, dao: Address, collection: Vec<u8>, nonce: u64) -> (r: Result<
        ContractCall,
        CoalitionError,
    >)
        ensures
            self@.data_aggregator is None ==> r == Err::<ContractCall, CoalitionError>(
                CoalitionError::StorageDecodeBadLength,
            ),
            self@.data_aggregator is Some && (self@.coalitions)(dao) is None ==> r == Err::<
                ContractCall,
                CoalitionError,
            >(CoalitionError::Panic),
            r is Ok <==> self@.data_aggregator is Some && (self@.coalitions)(dao) is Some,
            r matches Ok(c) ==> c@ == (ContractCallView::Undelegate {
                aggregator: self@.data_aggregator->0,
                app_id: (self@.coalitions)(dao)->0,
                nfts: seq![(collection@, nonce)],
            }),
    {
        let ghost cv = collection@;
        let mut nfts: Vec<(Vec<u8>, u64)> = Vec::new();
        nfts.push((collection, nonce));
        assert(nft_views(nfts@) =~= seq![(cv, nonce)]);
        self.undelegate_aggregator(dao, nfts)
    }

    fn revoke_access_callback(&mut self, caller: Address, dao: Address, succeeded: bool) -> (r: Result<
        (),
        CoalitionError,
    >)
        ensures
            r is Err <==> revoke_faults(old(self)@, caller, dao, succeeded),
            r matches Err(e) ==> e == CoalitionError::SubtractNegative && final(self)@ == old(self)@,
            r is Ok ==> final(self)@ == after_revoke(old(self)@, caller, dao, succeeded),
            storage_invariant(old(self)@) ==> storage_invariant(final(self)@),
    {
        proof {
            if storage_invariant(old(self)@) {
                law_delegation_bookkeeping_keeps_invariant(old(self)@, caller, dao, 0, succeeded);
            }
        }
        let user = self.user_id(&caller);
        if succeeded {
            let s = UserSlot { dao, user };
            let left = match self.delegation(&s).checked_sub(&Amount::from_u64(1)) {
                Some(d) => d,
                None => return Err(CoalitionError::SubtractNegative),
            };
            let none_left = left.is_zero();
            self.set_delegation(s, left);
            if none_left {
                self.remove_delegator(dao, user);
            }
        }
        Ok(())
    }

    fn get_info_view(&self, dao: Address, address: Option<Address>) -> (r: Result<Info, CoalitionError>)
        ensures
            r is Err <==> self@.data_aggregator is None,
            r matches Err(e) ==> e == CoalitionError::StorageDecodeBadLength,
            r matches Ok(info) ==> info@ == info_of(self@, dao, address),
    {
        let address = match address {
            Some(a) => a,
            None => Address::zero(),
        };
        let user = self.user_id(&address);
        let s = UserSlot { dao, user };
        let native_token = self.native_token();
        let aggregator = match self.data_aggregator() {
            Some(a) => a,
            None => return Err(CoalitionError::StorageDecodeBadLength),
        };
        let aggregator_app = match self.app_id_of(&dao) {
            Some(id) => id,
            None => 0,
        };
        let categories = self.category_list(&dao);
        let info = Info {
            native_token,
            aggregator,
            aggregator_app,
            categories,
            delegators: self.delegator_count(&dao),
            board_stake_amount: self.board_stake_amount(&dao),
            board_stake_duration: self.board_stake_duration(&dao),
            stake_lock_time: self.stake_lock_time(&dao),
            user_stake: self.stake(&s),
            user_stake_unlocks_at: self.unlock_time(&s),
        };
        assert(info@ =~= info_of(self@, dao, Some(address)));
        Ok(info)
    }
}

} // verus!
