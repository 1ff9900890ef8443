use vstd::prelude::*;

use crate::address::{Address, Member, UserSlot};
use crate::amount::Amount;
use crate::storage::{first_index, or_blank, set_inserted, set_swap_removed, updated, views_of, SwapSet, Table};
use crate::types::{AppId, UserId};

verus! {

/// Everything the contract keeps in storage, as plain mathematical values.
/// Slots that were never written read as zero or empty.
#[verifier::ext_equal]
pub struct CoalitionModel {
    /// Administrators, in the order of the unordered-set storage.
    pub admins: Seq<Address>,
    /// Identifier of the token that is staked.
    pub native_token: Seq<u8>,
    /// The contract that creates DAOs.
    pub dao_manager: Option<Address>,
    /// The data aggregator contract.
    pub data_aggregator: Option<Address>,
    /// DAOs created through this contract.
    pub daos: Seq<Address>,
    /// The aggregator application of each coalition DAO.
    pub coalitions: spec_fn(Address) -> Option<AppId>,
    /// Registered users; user `i + 1` is `users[i]`.
    pub users: Seq<Address>,
    /// Board members of each DAO, by user id.
    pub board_members: spec_fn(Address) -> Seq<UserId>,
    /// Users that delegated data to each DAO.
    pub delegators: spec_fn(Address) -> Seq<UserId>,
    /// Number of data items each user delegated to each DAO.
    pub delegations: spec_fn(UserSlot) -> nat,
    /// Data categories of each DAO.
    pub categories: spec_fn(Address) -> Seq<Seq<u8>>,
    /// Stake a user needs to join each DAO's board.
    pub board_stake_amount: spec_fn(Address) -> nat,
    /// Seconds a board member's stake must stay locked.
    pub board_stake_duration: spec_fn(Address) -> u64,
    /// Seconds a new stake is locked for, per DAO.
    pub stake_lock_time: spec_fn(Address) -> u64,
    /// The token each coalition was created to stake.
    pub staking_tokens: spec_fn(Address) -> Seq<u8>,
    /// Stake of each user in each DAO.
    pub stakes: spec_fn(UserSlot) -> nat,
    /// Time at which each user's stake in each DAO unlocks.
    pub unlock_time: spec_fn(UserSlot) -> u64,
}

pub open spec fn slot(dao: Address, user: UserId) -> UserSlot {
    UserSlot { dao, user }
}

impl CoalitionModel {
    /// The id of `a`, or 0 when `a` is not a registered user.
    pub open spec fn user_id(self, a: Address) -> UserId {
        if self.users.contains(a) {
            (first_index(self.users, a) + 1) as UserId
        } else {
            0
        }
    }

    /// The id `a` has once registered.
    pub open spec fn user_id_after_register(self, a: Address) -> UserId {
        if self.users.contains(a) {
            (first_index(self.users, a) + 1) as UserId
        } else {
            (self.users.len() + 1) as UserId
        }
    }

    /// The model with `a` registered as a user.
    pub open spec fn with_user(self, a: Address) -> CoalitionModel {
        self.with_users(set_inserted(self.users, a))
    }

    pub open spec fn with_admins(self, v: Seq<Address>) -> CoalitionModel {
        CoalitionModel { admins: v, ..self }
    }

    pub open spec fn with_native_token(self, v: Seq<u8>) -> CoalitionModel {
        CoalitionModel { native_token: v, ..self }
    }

    pub open spec fn with_dao_manager(self, v: Option<Address>) -> CoalitionModel {
        CoalitionModel { dao_manager: v, ..self }
    }

    pub open spec fn with_data_aggregator(self, v: Option<Address>) -> CoalitionModel {
        CoalitionModel { data_aggregator: v, ..self }
    }

    pub open spec fn with_daos(self, v: Seq<Address>) -> CoalitionModel {
        CoalitionModel { daos: v, ..self }
    }

    pub open spec fn with_coalitions(self, v: spec_fn(Address) -> Option<AppId>) -> CoalitionModel {
        CoalitionModel { coalitions: v, ..self }
    }

    pub open spec fn with_users(self, v: Seq<Address>) -> CoalitionModel {
        CoalitionModel { users: v, ..self }
    }

    pub open spec fn with_board_members(self, v: spec_fn(Address) -> Seq<UserId>) -> CoalitionModel {
        CoalitionModel { board_members: v, ..self }
    }

    pub open spec fn with_delegators(self, v: spec_fn(Address) -> Seq<UserId>) -> CoalitionModel {
        CoalitionModel { delegators: v, ..self }
    }

    pub open spec fn with_delegations(self, v: spec_fn(UserSlot) -> nat) -> CoalitionModel {
        CoalitionModel { delegations: v, ..self }
    }

    pub open spec fn with_categories(self, v: spec_fn(Address) -> Seq<Seq<u8>>) -> CoalitionModel {
        CoalitionModel { categories: v, ..self }
    }

    pub open spec fn with_board_stake_amount(self, v: spec_fn(Address) -> nat) -> CoalitionModel {
        CoalitionModel { board_stake_amount: v, ..self }
    }

    pub open spec fn with_board_stake_duration(self, v: spec_fn(Address) -> u64) -> CoalitionModel {
        CoalitionModel { board_stake_duration: v, ..self }
    }

    pub open spec fn with_stake_lock_time(self, v: spec_fn(Address) -> u64) -> CoalitionModel {
        CoalitionModel { stake_lock_time: v, ..self }
    }

    pub open spec fn with_staking_tokens(self, v: spec_fn(Address) -> Seq<u8>) -> CoalitionModel {
        CoalitionModel { staking_tokens: v, ..self }
    }

    pub open spec fn with_stakes(self, v: spec_fn(UserSlot) -> nat) -> CoalitionModel {
        CoalitionModel { stakes: v, ..self }
    }

    pub open spec fn with_unlock_time(self, v: spec_fn(UserSlot) -> u64) -> CoalitionModel {
        CoalitionModel { unlock_time: v, ..self }
    }
}

/// Registering a user twice is registering it once, and keeps its id.
pub proof fn lemma_register_twice(m: CoalitionModel, a: Address)
    ensures
        m.with_user(a).with_user(a) == m.with_user(a),
        m.with_user(a).user_id_after_register(a) == m.user_id_after_register(a),
        m.with_user(a).user_id(a) == m.user_id_after_register(a),
        m.with_user(a).users.contains(a),
{
    if !m.users.contains(a) {
        let t = m.users.push(a);
        assert forall|j: int| 0 <= j < m.users.len() implies t[j] != a by {
            assert(t[j] == m.users[j]);
        }
        crate::storage::lemma_first_index(t, a, m.users.len() as int);
    }
    assert(m.with_user(a).with_user(a) =~= m.with_user(a));
}

/// The contract's storage.
pub struct CoalitionState {
    admins: SwapSet<Address>,
    native_token: Vec<u8>,
    dao_manager: Option<Address>,
    data_aggregator: Option<Address>,
    daos: SwapSet<Address>,
    coalitions: Table<Address, u64>,
    users: SwapSet<Address>,
    board_members: Table<Address, SwapSet<usize>>,
    delegators: Table<Address, SwapSet<usize>>,
    delegations: Table<UserSlot, Amount>,
    categories: Table<Address, SwapSet<Vec<u8>>>,
    board_stake_amount: Table<Address, Amount>,
    board_stake_duration: Table<Address, u64>,
    stake_lock_time: Table<Address, u64>,
    staking_tokens: Table<Address, Vec<u8>>,
    stakes: Table<UserSlot, Amount>,
    unlock_time: Table<UserSlot, u64>,
}

/// The empty model: nothing stored yet.
pub open spec fn empty_model() -> CoalitionModel {
    CoalitionModel {
        admins: Seq::empty(),
        native_token: Seq::empty(),
        dao_manager: None,
        data_aggregator: None,
        daos: Seq::empty(),
        coalitions: |d: Address| None,
        users: Seq::empty(),
        board_members: |d: Address| Seq::<UserId>::empty(),
        delegators: |d: Address| Seq::<UserId>::empty(),
        delegations: |s: UserSlot| 0nat,
        categories: |d: Address| Seq::<Seq<u8>>::empty(),
        board_stake_amount: |d: Address| 0nat,
        board_stake_duration: |d: Address| 0u64,
        stake_lock_time: |d: Address| 0u64,
        staking_tokens: |d: Address| Seq::<u8>::empty(),
        stakes: |s: UserSlot| 0nat,
        unlock_time: |s: UserSlot| 0u64,
    }
}

impl View for CoalitionState {
    type V = CoalitionModel;

    closed spec fn view(&self) -> CoalitionModel {
        CoalitionModel {
            admins: self.admins@,
            native_token: self.native_token@,
            dao_manager: self.dao_manager,
            data_aggregator: self.data_aggregator,
            daos: self.daos@,
            coalitions: self.coalitions@,
            users: self.users@,
            board_members: |d: Address| or_blank::<SwapSet<usize>>((self.board_members@)(d)),
            delegators: |d: Address| or_blank::<SwapSet<usize>>((self.delegators@)(d)),
            delegations: |s: UserSlot| or_blank::<Amount>((self.delegations@)(s)),
            categories: |d: Address| or_blank::<SwapSet<Vec<u8>>>((self.categories@)(d)),
            board_stake_amount: |d: Address| or_blank::<Amount>((self.board_stake_amount@)(d)),
            board_stake_duration: |d: Address| or_blank::<u64>((self.board_stake_duration@)(d)),
            stake_lock_time: |d: Address| or_blank::<u64>((self.stake_lock_time@)(d)),
            staking_tokens: |d: Address| or_blank::<Vec<u8>>((self.staking_tokens@)(d)),
            stakes: |s: UserSlot| or_blank::<Amount>((self.stakes@)(s)),
            unlock_time: |s: UserSlot| or_blank::<u64>((self.unlock_time@)(s)),
        }
    }
}

impl CoalitionState {
    /// Storage with nothing written.
    pub fn new() -> (r: CoalitionState)
        ensures
            r@ == empty_model(),
            crate::laws::storage_invariant(r@),
    {
        proof {
            crate::laws::law_fresh_storage_satisfies_invariant();
        }
        let r = CoalitionState {
            admins: SwapSet::new(),
            native_token: Vec::new(),
            dao_manager: None,
            data_aggregator: None,
            daos: SwapSet::new(),
            coalitions: Table::new(),
            users: SwapSet::new(),
            board_members: Table::new(),
            delegators: Table::new(),
            delegations: Table::new(),
            categories: Table::new(),
            board_stake_amount: Table::new(),
            board_stake_duration: Table::new(),
            stake_lock_time: Table::new(),
            staking_tokens: Table::new(),
            stakes: Table::new(),
            unlock_time: Table::new(),
        };
        assert(r@.native_token =~= Seq::<u8>::empty());
        assert(r@ =~= empty_model());
        r
    }

    // ---- administrators ----
    pub fn is_admin(&self, a: &Address) -> (b: bool)
        ensures
            b == self@.admins.contains(*a),
    {
        self.admins.contains(a)
    }

    pub fn admin_list(&self) -> (r: Vec<Address>)
        ensures
            views_of(r@) == self@.admins,
    {
        self.admins.to_vec()
    }

    pub(crate) fn insert_admin(&mut self, a: Address)
        ensures
            final(self)@ == old(self)@.with_admins(set_inserted(old(self)@.admins, a)),
    {
        self.admins.insert(a);
        assert(self@ =~= old(self)@.with_admins(set_inserted(old(self)@.admins, a)));
    }

    pub(crate) fn remove_admin(&mut self, a: &Address)
        ensures
            final(self)@ == old(self)@.with_admins(set_swap_removed(old(self)@.admins, *a)),
    {
        self.admins.swap_remove(a);
        assert(self@ =~= old(self)@.with_admins(set_swap_removed(old(self)@.admins, *a)));
    }
    // ---- single values ----
    pub fn native_token(&self) -> (r: Vec<u8>)
        ensures
            r@ == self@.native_token,
    {
        self.native_token.duplicate()
    }

    pub(crate) fn set_native_token(&mut self, t: Vec<u8>)
        ensures
            final(self)@ == old(self)@.with_native_token(t@),
    {
        self.native_token = t;
        assert(self@ =~= old(self)@.with_native_token(self.native_token@));
    }

    pub fn dao_manager(&self) -> (r: Option<Address>)
        ensures
            r == self@.dao_manager,
    {
        self.dao_manager
    }

    pub(crate) fn set_dao_manager(&mut self, a: Address)
        ensures
            final(self)@ == old(self)@.with_dao_manager(Some(a)),
    {
        self.dao_manager = Some(a);
        assert(self@ =~= old(self)@.with_dao_manager(Some(a)));
    }

    pub fn data_aggregator(&self) -> (r: Option<Address>)
        ensures
            r == self@.data_aggregator,
    {
        self.data_aggregator
    }

    pub(crate) fn set_data_aggregator(&mut self, a: Address)
        ensures
            final(self)@ == old(self)@.with_data_aggregator(Some(a)),
    {
        self.data_aggregator = Some(a);
        assert(self@ =~= old(self)@.with_data_aggregator(Some(a)));
    }

    // ---- DAOs and coalitions ----
    pub fn is_dao(&self, a: &Address) -> (b: bool)
        ensures
            b == self@.daos.contains(*a),
    {
        self.daos.contains(a)
    }

    pub(crate) fn insert_dao(&mut self, a: Address)
        ensures
            final(self)@ == old(self)@.with_daos(set_inserted(old(self)@.daos, a)),
    {
        self.daos.insert(a);
        assert(self@ =~= old(self)@.with_daos(set_inserted(old(self)@.daos, a)));
    }

    pub fn app_id_of(&self, dao: &Address) -> (r: Option<AppId>)
        ensures
            r == (self@.coalitions)(*dao),
    {
        self.coalitions.get(dao)
    }

    pub(crate) fn insert_coalition(&mut self, dao: Address, app: AppId)
        ensures
            final(self)@ == old(self)@.with_coalitions(updated(old(self)@.coalitions, dao, Some(app))),
    {
        self.coalitions.put(dao, app);
        assert(self@ =~= old(self)@.with_coalitions(updated(old(self)@.coalitions, dao, Some(app))));
    }

    // ---- users ----
    pub fn user_id(&self, a: &Address) -> (r: UserId)
        ensures
            r == self@.user_id(*a),
            (r == 0) == !self@.users.contains(*a),
    {
        match self.users.position(a) {
            Some(i) => i + 1,
            None => 0,
        }
    }

    /// The id of `a`, registering it first when it is new.
    pub(crate) fn get_or_create_user(&mut self, a: &Address) -> (r: UserId)
        ensures
            r == old(self)@.user_id_after_register(*a),
            final(self)@ == old(self)@.with_user(*a),
            old(self)@.users.contains(*a) || old(self)@.users.len() < usize::MAX,
    {
        match self.users.position(a) {
            Some(i) => {
                assert(self@ =~= old(self)@.with_user(*a));
                i + 1
            },
            None => {
                self.users.insert(*a);
                assert(self@ =~= old(self)@.with_user(*a));
                self.users.len()
            },
        }
    }

    /// Takes back the registration of `a`.
    pub(crate) fn forget_user(&mut self, a: &Address)
        ensures
            final(self)@ == old(self)@.with_users(set_swap_removed(old(self)@.users, *a)),
    {
        self.users.swap_remove(a);
        assert(self@ =~= old(self)@.with_users(set_swap_removed(old(self)@.users, *a)));
    }

    // ---- board members ----
    pub fn is_board_member(&self, dao: &Address, user: UserId) -> (b: bool)
        ensures
            b == (self@.board_members)(*dao).contains(user),
    {
        self.board_members.get_or_blank(dao).contains(&user)
    }

    pub(crate) fn insert_board_member(&mut self, dao: Address, user: UserId)
        ensures
            final(self)@ == old(self)@.with_board_members(
                updated(old(self)@.board_members, dao, set_inserted((old(self)@.board_members)(dao), user)),
            ),
    {
        let mut members = self.board_members.get_or_blank(&dao);
        members.insert(user);
        self.board_members.put(dao, members);
        assert(self@ =~= old(self)@.with_board_members(
            updated(old(self)@.board_members, dao, set_inserted((old(self)@.board_members)(dao), user)),
        ));
    }

    // ---- delegators and delegations ----
    pub fn delegator_count(&self, dao: &Address) -> (n: usize)
        ensures
            n == (self@.delegators)(*dao).len(),
    {
        self.delegators.get_or_blank(dao).len()
    }

    pub(crate) fn insert_delegator(&mut self, dao: Address, user: UserId)
        ensures
            final(self)@ == old(self)@.with_delegators(
                updated(old(self)@.delegators, dao, set_inserted((old(self)@.delegators)(dao), user)),
            ),
    {
        let mut set = self.delegators.get_or_blank(&dao);
        set.insert(user);
        self.delegators.put(dao, set);
        assert(self@ =~= old(self)@.with_delegators(
            updated(old(self)@.delegators, dao, set_inserted((old(self)@.delegators)(dao), user)),
        ));
    }

    pub(crate) fn remove_delegator(&mut self, dao: Address, user: UserId)
        ensures
            final(self)@ == old(self)@.with_delegators(
                updated(old(self)@.delegators, dao, set_swap_removed((old(self)@.delegators)(dao), user)),
            ),
    {
        let mut set = self.delegators.get_or_blank(&dao);
        set.swap_remove(&user);
        self.delegators.put(dao, set);
        assert(self@ =~= old(self)@.with_delegators(
            updated(old(self)@.delegators, dao, set_swap_removed((old(self)@.delegators)(dao), user)),
        ));
    }

    pub fn delegation(&self, s: &UserSlot) -> (r: Amount)
        ensures
            r@ == (self@.delegations)(*s),
    {
        self.delegations.get_or_blank(s)
    }

    pub(crate) fn set_delegation(&mut self, s: UserSlot, v: Amount)
        ensures
            final(self)@ == old(self)@.with_delegations(updated(old(self)@.delegations, s, v@)),
    {
        let ghost vv = v@;
        self.delegations.put(s, v);
        assert(self@ =~= old(self)@.with_delegations(updated(old(self)@.delegations, s, vv)));
    }

    // ---- categories ----
    pub fn has_category(&self, dao: &Address, name: &Vec<u8>) -> (b: bool)
        ensures
            b == (self@.categories)(*dao).contains(name@),
    {
        self.categories.get_or_blank(dao).contains(name)
    }

    pub fn category_list(&self, dao: &Address) -> (r: Vec<Vec<u8>>)
        ensures
            views_of(r@) == (self@.categories)(*dao),
    {
        self.categories.get_or_blank(dao).to_vec()
    }

    pub(crate) fn insert_category(&mut self, dao: Address, name: Vec<u8>)
        ensures
            final(self)@ == old(self)@.with_categories(
                updated(old(self)@.categories, dao, set_inserted((old(self)@.categories)(dao), name@)),
            ),
    {
        let ghost nv = name@;
        let mut set = self.categories.get_or_blank(&dao);
        set.insert(name);
        self.categories.put(dao, set);
        assert(self@ =~= old(self)@.with_categories(
            updated(old(self)@.categories, dao, set_inserted((old(self)@.categories)(dao), nv)),
        ));
    }

    pub(crate) fn remove_category(&mut self, dao: Address, name: &Vec<u8>)
        ensures
            final(self)@ == old(self)@.with_categories(
                updated(old(self)@.categories, dao, set_swap_removed((old(self)@.categories)(dao), name@)),
            ),
    {
        let mut set = self.categories.get_or_blank(&dao);
        set.swap_remove(name);
        self.categories.put(dao, set);
        assert(self@ =~= old(self)@.with_categories(
            updated(old(self)@.categories, dao, set_swap_removed((old(self)@.categories)(dao), name@)),
        ));
    }

    // ---- board requirements and staking ----
    pub fn board_stake_amount(&self, dao: &Address) -> (r: Amount)
        ensures
            r@ == (self@.board_stake_amount)(*dao),
    {
        self.board_stake_amount.get_or_blank(dao)
    }

    pub(crate) fn set_board_stake_amount(&mut self, dao: Address, v: Amount)
        ensures
            final(self)@ == old(self)@.with_board_stake_amount(updated(old(self)@.board_stake_amount, dao, v@)),
    {
        let ghost vv = v@;
        self.board_stake_amount.put(dao, v);
        assert(self@ =~= old(self)@.with_board_stake_amount(updated(old(self)@.board_stake_amount, dao, vv)));
    }

    pub fn board_stake_duration(&self, dao: &Address) -> (r: u64)
        ensures
            r == (self@.board_stake_duration)(*dao),
    {
        self.board_stake_duration.get_or_blank(dao)
    }

    pub(crate) fn set_board_stake_duration(&mut self, dao: Address, v: u64)
        ensures
            final(self)@ == old(self)@.with_board_stake_duration(updated(old(self)@.board_stake_duration, dao, v)),
    {
        self.board_stake_duration.put(dao, v);
        assert(self@ =~= old(self)@.with_board_stake_duration(updated(old(self)@.board_stake_duration, dao, v)));
    }

    pub fn stake_lock_time(&self, dao: &Address) -> (r: u64)
        ensures
            r == (self@.stake_lock_time)(*dao),
    {
        self.stake_lock_time.get_or_blank(dao)
    }

    pub(crate) fn set_stake_lock_time(&mut self, dao: Address, v: u64)
        ensures
            final(self)@ == old(self)@.with_stake_lock_time(updated(old(self)@.stake_lock_time, dao, v)),
    {
        self.stake_lock_time.put(dao, v);
        assert(self@ =~= old(self)@.with_stake_lock_time(updated(old(self)@.stake_lock_time, dao, v)));
    }

    pub fn staking_token(&self, dao: &Address) -> (r: Vec<u8>)
        ensures
            r@ == (self@.staking_tokens)(*dao),
    {
        self.staking_tokens.get_or_blank(dao)
    }

    pub(crate) fn set_staking_token(&mut self, dao: Address, t: Vec<u8>)
        ensures
            final(self)@ == old(self)@.with_staking_tokens(updated(old(self)@.staking_tokens, dao, t@)),
    {
        let ghost tv = t@;
        self.staking_tokens.put(dao, t);
        assert(self@ =~= old(self)@.with_staking_tokens(updated(old(self)@.staking_tokens, dao, tv)));
    }

    pub fn stake(&self, s: &UserSlot) -> (r: Amount)
        ensures
            r@ == (self@.stakes)(*s),
    {
        self.stakes.get_or_blank(s)
    }

    pub(crate) fn set_stake(&mut self, s: UserSlot, v: Amount)
        ensures
            final(self)@ == old(self)@.with_stakes(updated(old(self)@.stakes, s, v@)),
    {
        let ghost vv = v@;
        self.stakes.put(s, v);
        assert(self@ =~= old(self)@.with_stakes(updated(old(self)@.stakes, s, vv)));
    }

    pub fn unlock_time(&self, s: &UserSlot) -> (r: u64)
        ensures
            r == (self@.unlock_time)(*s),
    {
        self.unlock_time.get_or_blank(s)
    }

    pub(crate) fn set_unlock_time(&mut self, s: UserSlot, v: u64)
        ensures
            final(self)@ == old(self)@.with_unlock_time(updated(old(self)@.unlock_time, s, v)),
    {
        self.unlock_time.put(s, v);
        assert(self@ =~= old(self)@.with_unlock_time(updated(old(self)@.unlock_time, s, v)));
    }
}

} // verus!
