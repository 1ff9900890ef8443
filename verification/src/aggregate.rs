use vstd::prelude::*;

use crate::address::Address;
use crate::config::caller_is_admin;
use crate::dao::ContractProxy;
use crate::laws::{law_settings_keep_invariant, storage_invariant};
use crate::state::CoalitionState;
use crate::types::{
    nft_views, payment_views, AppId, CallContext, CoalitionError, ContractCall, ContractCallView, EsdtPayment,
};

verus! {

/// The data aggregator: registers applications and holds delegated data.
pub trait DataAggregatorContractProxy {
    fn register_app_endpoint(&self, name: Vec<u8>) -> ContractCall;

    fn delegate_endpoint(
        &self,
        app_id: AppId,
        segment: Vec<u8>,
        user: Option<Address>,
        transfers: Vec<EsdtPayment>,
    ) -> ContractCall;

    fn undelegate_endpoint(&self, app_id: AppId, nfts: Vec<(Vec<u8>, u64)>) -> ContractCall;
}

impl DataAggregatorContractProxy for ContractProxy {
    fn register_app_endpoint(&self, name: Vec<u8>) -> (r: ContractCall)
        ensures
            r@ == (ContractCallView::RegisterApp { aggregator: self.to, name: name@ }),
    {
        ContractCall::RegisterApp { aggregator: self.to, name }
    }

    fn delegate_endpoint(
        &self,
        app_id: AppId,
        segment: Vec<u8>,
        user: Option<Address>,
        transfers: Vec<EsdtPayment>,
    ) -> (r: ContractCall)
        ensures
            r@ == (ContractCallView::Delegate {
                aggregator: self.to,
                app_id,
                segment: segment@,
                user,
                transfers: payment_views(transfers@),
            }),
    {
        ContractCall::Delegate { aggregator: self.to, app_id, segment, user, transfers }
    }

    fn undelegate_endpoint(&self, app_id: AppId, nfts: Vec<(Vec<u8>, u64)>) -> (r: ContractCall)
        ensures
            r@ == (ContractCallView::Undelegate { aggregator: self.to, app_id, nfts: nft_views(nfts@) }),
    {
        ContractCall::Undelegate { aggregator: self.to, app_id, nfts }
    }
}

/// Registration with the data aggregator, and delegation of data to it.
pub trait AggregateModule {
    /// Sets the data aggregator contract (admins only).
    fn init_aggregate_module_endpoint(&mut self, ctx: &CallContext, data_aggregator: Address) -> Result<(), CoalitionError>;

    /// The call that registers an application called `name`.
    fn register_aggregator_app(&self, name: Vec<u8>) -> Result<ContractCall, CoalitionError>;

    /// The call that delegates `transfers` to the coalition `dao`, in `category`, for `delegator`.
    fn delegate_aggregator(
        &self,
        dao: Address,
        delegator: Address,
        category: Vec<u8>,
        transfers: Vec<EsdtPayment>,
    ) -> Result<ContractCall, CoalitionError>;

    /// The call that takes the given data NFTs back from the coalition `dao`.
    fn undelegate_aggregator(&self, dao: Address, nfts: Vec<(Vec<u8>, u64)>) -> Result<ContractCall, CoalitionError>;
}

impl AggregateModule for CoalitionState {
    fn init_aggregate_module_endpoint(&mut self, ctx: &CallContext, data_aggregator: Address) -> (r: Result<(), CoalitionError>)
        ensures
            r is Ok <==> caller_is_admin(old(self)@, *ctx),
            r is Err ==> r == Err::<(), CoalitionError>(CoalitionError::CallerNotAdmin) && final(self)@ == old(self)@,
            r is Ok ==> final(self)@ == old(self)@.with_data_aggregator(Some(data_aggregator)),
            storage_invariant(old(self)@) ==> storage_invariant(final(self)@),
    {
        proof {
            if storage_invariant(old(self)@) {
                law_settings_keep_invariant(old(self)@, data_aggregator);
            }
        }
        crate::config::ConfigModule::require_caller_is_admin(self, ctx)?;
        self.set_data_aggregator(data_aggregator);
        Ok(())
    }

    fn register_aggregator_app(&self, name: Vec<u8>) -> (r: Result<ContractCall, CoalitionError>)
        ensures
            r is Err <==> self@.data_aggregator is None,
            r matches Err(e) ==> e == CoalitionError::DataAggregatorNotSet,
            r matches Ok(c) ==> c@ == (ContractCallView::RegisterApp {
                aggregator: self@.data_aggregator->0,
                name: name@,
            }),
    {
        match self.data_aggregator() {
            None => Err(CoalitionError::DataAggregatorNotSet),
            Some(aggregator) => Ok(ContractProxy { to: aggregator }.register_app_endpoint(name)),
        }
    }

    fn delegate_aggregator(
        &self,
        dao: Address,
        delegator: Address,
        category: Vec<u8>,
        transfers: Vec<EsdtPayment>,
    ) -> (r: Result<ContractCall, CoalitionError>)
        ensures
            self@.data_aggregator is None ==> r == Err::<ContractCall, CoalitionError>(
                CoalitionError::StorageDecodeBadLength,
            ),
            self@.data_aggregator is Some && (self@.coalitions)(dao) is None ==> r == Err::<
                ContractCall,
                CoalitionError,
            >(CoalitionError::Panic),
            r is Ok <==> self@.data_aggregator is Some && (self@.coalitions)(dao) is Some,
            r matches Ok(c) ==> c@ == (ContractCallView::Delegate {
                aggregator: self@.data_aggregator->0,
                app_id: (self@.coalitions)(dao)->0,
                segment: category@,
                user: Some(delegator),
                transfers: payment_views(transfers@),
            }),
    {
        let aggregator = match self.data_aggregator() {
            None => return Err(CoalitionError::StorageDecodeBadLength),
            Some(a) => a,
        };
        let app_id = match self.app_id_of(&dao) {
            None => return Err(CoalitionError::Panic),
            Some(id) => id,
        };
        Ok(ContractProxy { to: aggregator }.delegate_endpoint(app_id, category, Some(delegator), transfers))
    }

    fn undelegate_aggregator(&self, dao: Address, nfts: Vec<(Vec<u8>, u64)>) -> (r: Result<ContractCall, CoalitionError>)
        ensures
            self@.data_aggregator is None ==> r == Err::<ContractCall, CoalitionError>(
                CoalitionError::StorageDecodeBadLength,
            ),
            self@.data_aggregator is Some && (self@.coalitions)(dao) is None ==> r == Err::<
                ContractCall,
                CoalitionError,
            >(CoalitionError::Panic),
            r is Ok <==> self@.data_aggregator is Some && (self@.coalitions)(dao) is Some,
            r matches Ok(c) ==> c@ == (ContractCallView::Undelegate {
                aggregator: self@.data_aggregator->0,
                app_id: (self@.coalitions)(dao)->0,
                nfts: nft_views(nfts@),
            }),
    {
        let aggregator = match self.data_aggregator() {
            None => return Err(CoalitionError::StorageDecodeBadLength),
            Some(a) => a,
        };
        let app_id = match self.app_id_of(&dao) {
            None => return Err(CoalitionError::Panic),
            Some(id) => id,
        };
        Ok(ContractProxy { to: aggregator }.undelegate_endpoint(app_id, nfts))
    }
}

} // verus!
