use vstd::prelude::*;
use vstd::string::*;

use crate::address::Address;
use crate::amount::Amount;

verus! {

/// Identifier the data aggregator gives a registered application.
pub type AppId = u64;

/// Identifier of a registered user; `0` means "no such user".
pub type UserId = usize;

/// What the chain tells a call about its surroundings.
#[derive(Clone, Copy, Debug)]
pub struct CallContext {
    /// The account that made the call.
    pub caller: Address,
    /// The owner of the contract.
    pub owner: Address,
    /// The contract's own address.
    pub self_address: Address,
    /// The block timestamp, in seconds.
    pub block_timestamp: u64,
}

/// A token transfer: identifier, nonce (zero for fungible tokens) and amount.
pub struct EsdtPayment {
    pub token_identifier: Vec<u8>,
    pub token_nonce: u64,
    pub amount: Amount,
}

/// The plain-value view of a payment.
pub struct PaymentView {
    pub token_identifier: Seq<u8>,
    pub token_nonce: u64,
    pub amount: nat,
}

impl View for EsdtPayment {
    type V = PaymentView;

    open spec fn view(&self) -> PaymentView {
        PaymentView {
            token_identifier: self.token_identifier@,
            token_nonce: self.token_nonce,
            amount: self.amount@,
        }
    }
}

impl EsdtPayment {
    pub fn copy(&self) -> (r: EsdtPayment)
        ensures
            r@ == self@,
    {
        let token_identifier = self.token_identifier.clone();
        assert(token_identifier@ =~= self.token_identifier@);
        EsdtPayment { token_identifier, token_nonce: self.token_nonce, amount: self.amount.copy() }
    }
}

/// The views of a sequence of payments.
pub open spec fn payment_views(s: Seq<EsdtPayment>) -> Seq<PaymentView> {
    s.map_values(|p: EsdtPayment| p@)
}

/// Tokens the contract sends to an account.
pub struct Transfer {
    pub to: Address,
    pub payments: Vec<EsdtPayment>,
}

/// The plain-value view of a transfer.
pub struct TransferView {
    pub to: Address,
    pub payments: Seq<PaymentView>,
}

impl View for Transfer {
    type V = TransferView;

    open spec fn view(&self) -> TransferView {
        TransferView { to: self.to, payments: payment_views(self.payments@) }
    }
}

/// How a DAO policy decides.
#[derive(Clone, Copy, Debug, PartialEq, Eq, Structural)]
pub enum PolicyMethod {
    Weight,
    One,
    All,
    Quorum,
    Majority,
}

/// One action that a DAO executes at the contract's request.
pub struct Action {
    pub destination: Address,
    pub endpoint: Vec<u8>,
    pub value: Amount,
    pub payments: Vec<EsdtPayment>,
    pub arguments: Vec<Vec<u8>>,
    pub gas_limit: u64,
}

/// The plain-value view of an action.
pub struct ActionView {
    pub destination: Address,
    pub endpoint: Seq<u8>,
    pub value: nat,
    pub payments: Seq<PaymentView>,
    pub arguments: Seq<Seq<u8>>,
    pub gas_limit: u64,
}

/// The views of a sequence of byte buffers.
pub open spec fn buffer_views(s: Seq<Vec<u8>>) -> Seq<Seq<u8>> {
    s.map_values(|b: Vec<u8>| b@)
}

impl View for Action {
    type V = ActionView;

    open spec fn view(&self) -> ActionView {
        ActionView {
            destination: self.destination,
            endpoint: self.endpoint@,
            value: self.value@,
            payments: payment_views(self.payments@),
            arguments: buffer_views(self.arguments@),
            gas_limit: self.gas_limit,
        }
    }
}

/// A call to another contract, as the contract would send it.
pub enum ContractCall {
    /// Asks the DAO manager to create a DAO entity, paying `payment`.
    CreateEntity { manager: Address, features: Vec<Vec<u8>>, payment: EsdtPayment },
    /// Registers an application with the data aggregator.
    RegisterApp { aggregator: Address, name: Vec<u8> },
    /// Delegates the transferred data NFTs to an application's segment.
    Delegate {
        aggregator: Address,
        app_id: AppId,
        segment: Vec<u8>,
        user: Option<Address>,
        transfers: Vec<EsdtPayment>,
    },
    /// Takes back delegated data NFTs, each given by collection and nonce.
    Undelegate { aggregator: Address, app_id: AppId, nfts: Vec<(Vec<u8>, u64)> },
    /// Has a DAO execute the given actions directly.
    DirectExecute { dao: Address, actions: Vec<Action> },
}

/// The plain-value view of a contract call.
pub enum ContractCallView {
    CreateEntity { manager: Address, features: Seq<Seq<u8>>, payment: PaymentView },
    RegisterApp { aggregator: Address, name: Seq<u8> },
    Delegate {
        aggregator: Address,
        app_id: AppId,
        segment: Seq<u8>,
        user: Option<Address>,
        transfers: Seq<PaymentView>,
    },
    Undelegate { aggregator: Address, app_id: AppId, nfts: Seq<(Seq<u8>, u64)> },
    DirectExecute { dao: Address, actions: Seq<ActionView> },
}

/// The views of a sequence of (collection, nonce) pairs.
pub open spec fn nft_views(s: Seq<(Vec<u8>, u64)>) -> Seq<(Seq<u8>, u64)> {
    s.map_values(|n: (Vec<u8>, u64)| (n.0@, n.1))
}

/// The views of a sequence of actions.
pub open spec fn action_views(s: Seq<Action>) -> Seq<ActionView> {
    s.map_values(|a: Action| a@)
}

impl View for ContractCall {
    type V = ContractCallView;

    open spec fn view(&self) -> ContractCallView {
        match self {
            ContractCall::CreateEntity { manager, features, payment } => ContractCallView::CreateEntity {
                manager: *manager,
                features: buffer_views(features@),
                payment: payment@,
            },
            ContractCall::RegisterApp { aggregator, name } => ContractCallView::RegisterApp {
                aggregator: *aggregator,
                name: name@,
            },
            ContractCall::Delegate { aggregator, app_id, segment, user, transfers } => ContractCallView::Delegate {
                aggregator: *aggregator,
                app_id: *app_id,
                segment: segment@,
                user: *user,
                transfers: payment_views(transfers@),
            },
            ContractCall::Undelegate { aggregator, app_id, nfts } => ContractCallView::Undelegate {
                aggregator: *aggregator,
                app_id: *app_id,
                nfts: nft_views(nfts@),
            },
            ContractCall::DirectExecute { dao, actions } => ContractCallView::DirectExecute {
                dao: *dao,
                actions: action_views(actions@),
            },
        }
    }
}

/// The views of a sequence of calls.
pub open spec fn call_views(s: Seq<ContractCall>) -> Seq<ContractCallView> {
    s.map_values(|c: ContractCall| c@)
}

/// Why a call fails; the transaction is then reverted.
#[derive(Clone, Copy, Debug, PartialEq, Eq, Structural)]
pub enum CoalitionError {
    CallerNotAdmin,
    CallerNotDao,
    DaoManagerNotSet,
    DataAggregatorNotSet,
    CategoryAlreadyExists,
    CategoryDoesNotExist,
    InsufficientStake,
    StakeUnlocksTooEarly,
    NotBoardMember,
    StakeTokenNotSet,
    InvalidStakeToken,
    StakeTokenNotFungible,
    UnstakeZero,
    NoStakeToUnstake,
    StakeLocked,
    /// Reading the data aggregator's address before it was set.
    StorageDecodeBadLength,
    /// Taking one item off a delegation count that is already zero.
    SubtractNegative,
    /// The call hit a run-time fault (an absent value unwrapped, or an
    /// integer overflow).
    Panic,
}

/// The message a failed call reports.
pub open spec fn error_message(e: CoalitionError) -> Seq<u8> {
    match e {
        CoalitionError::CallerNotAdmin => "caller must be admin".spec_bytes(),
        CoalitionError::CallerNotDao => "caller must be dao".spec_bytes(),
        CoalitionError::DaoManagerNotSet => "dao manager not set".spec_bytes(),
        CoalitionError::DataAggregatorNotSet => "data aggregator not set".spec_bytes(),
        CoalitionError::CategoryAlreadyExists => "category already exists".spec_bytes(),
        CoalitionError::CategoryDoesNotExist => "category does not exist".spec_bytes(),
        CoalitionError::InsufficientStake => "insufficient stake".spec_bytes(),
        CoalitionError::StakeUnlocksTooEarly => "stake unlocks too early".spec_bytes(),
        CoalitionError::NotBoardMember => "not a board member".spec_bytes(),
        CoalitionError::StakeTokenNotSet => "stake token not set".spec_bytes(),
        CoalitionError::InvalidStakeToken => "invalid stake token".spec_bytes(),
        CoalitionError::StakeTokenNotFungible => "stake token must be fungible".spec_bytes(),
        CoalitionError::UnstakeZero => "must not unstake zero".spec_bytes(),
        CoalitionError::NoStakeToUnstake => "no stake to unstake".spec_bytes(),
        CoalitionError::StakeLocked => "stake is locked".spec_bytes(),
        CoalitionError::StorageDecodeBadLength => "storage decode error (key: aggregate:contract): bad array length".spec_bytes(),
        CoalitionError::SubtractNegative => "cannot subtract because result would be negative".spec_bytes(),
        CoalitionError::Panic => "panic occurred".spec_bytes(),
    }
}

impl CoalitionError {
    /// The message bytes the failed call reports.
    pub fn message(&self) -> (r: Vec<u8>)
        ensures
            r@ == error_message(*self),
    {
        match self {
            CoalitionError::CallerNotAdmin => "caller must be admin".as_bytes_vec(),
            CoalitionError::CallerNotDao => "caller must be dao".as_bytes_vec(),
            CoalitionError::DaoManagerNotSet => "dao manager not set".as_bytes_vec(),
            CoalitionError::DataAggregatorNotSet => "data aggregator not set".as_bytes_vec(),
            CoalitionError::CategoryAlreadyExists => "category already exists".as_bytes_vec(),
            CoalitionError::CategoryDoesNotExist => "category does not exist".as_bytes_vec(),
            CoalitionError::InsufficientStake => "insufficient stake".as_bytes_vec(),
            CoalitionError::StakeUnlocksTooEarly => "stake unlocks too early".as_bytes_vec(),
            CoalitionError::NotBoardMember => "not a board member".as_bytes_vec(),
            CoalitionError::StakeTokenNotSet => "stake token not set".as_bytes_vec(),
            CoalitionError::InvalidStakeToken => "invalid stake token".as_bytes_vec(),
            CoalitionError::StakeTokenNotFungible => "stake token must be fungible".as_bytes_vec(),
            CoalitionError::UnstakeZero => "must not unstake zero".as_bytes_vec(),
            CoalitionError::NoStakeToUnstake => "no stake to unstake".as_bytes_vec(),
            CoalitionError::StakeLocked => "stake is locked".as_bytes_vec(),
            CoalitionError::StorageDecodeBadLength => "storage decode error (key: aggregate:contract): bad array length".as_bytes_vec(),
            CoalitionError::SubtractNegative => "cannot subtract because result would be negative".as_bytes_vec(),
            CoalitionError::Panic => "panic occurred".as_bytes_vec(),
        }
    }
}

/// A summary of one coalition, and of one account's stake in it.
pub struct Info {
    pub native_token: Vec<u8>,
    pub aggregator: Address,
    pub aggregator_app: AppId,
    pub categories: Vec<Vec<u8>>,
    pub delegators: usize,
    pub board_stake_amount: Amount,
    pub board_stake_duration: u64,
    pub stake_lock_time: u64,
    pub user_stake: Amount,
    pub user_stake_unlocks_at: u64,
}

} // verus!

verus! {

/// The plain-value view of [`Info`].
pub struct InfoView {
    pub native_token: Seq<u8>,
    pub aggregator: Address,
    pub aggregator_app: AppId,
    pub categories: Seq<Seq<u8>>,
    pub delegators: usize,
    pub board_stake_amount: nat,
    pub board_stake_duration: u64,
    pub stake_lock_time: u64,
    pub user_stake: nat,
    pub user_stake_unlocks_at: u64,
}

impl View for Info {
    type V = InfoView;

    open spec fn view(&self) -> InfoView {
        InfoView {
            native_token: self.native_token@,
            aggregator: self.aggregator,
            aggregator_app: self.aggregator_app,
            categories: buffer_views(self.categories@),
            delegators: self.delegators,
            board_stake_amount: self.board_stake_amount@,
            board_stake_duration: self.board_stake_duration,
            stake_lock_time: self.stake_lock_time,
            user_stake: self.user_stake@,
            user_stake_unlocks_at: self.user_stake_unlocks_at,
        }
    }
}

} // verus!
