use vstd::prelude::*;

use crate::address::{Address, UserSlot};
use crate::amount::{be_value, lemma_be_push, minimal_be};
use crate::board::{unlocked, with_board_member};
use crate::coalition::{after_grant, after_revoke, coalition_configured, coalition_created, revoke_faults, staking_configured};
use crate::state::{empty_model, slot, CoalitionModel};
use crate::storage::{
    lemma_inserted_members, lemma_swap_remove_undoes_insert, lemma_swap_removed_members, set_inserted,
    set_swap_removed, updated,
};
use crate::stake::{lock_end, stake_error, staked, unstake_error, unstaked};
use crate::types::{AppId, CallContext, PaymentView, UserId};

verus! {

/// Every unordered set in storage holds each member once.
pub open spec fn sets_unique(m: CoalitionModel) -> bool {
    &&& m.admins.no_duplicates()
    &&& m.daos.no_duplicates()
    &&& m.users.no_duplicates()
    &&& forall|d: Address| (#[trigger] (m.board_members)(d)).no_duplicates()
    &&& forall|d: Address| (#[trigger] (m.delegators)(d)).no_duplicates()
    &&& forall|d: Address| (#[trigger] (m.categories)(d)).no_duplicates()
}

/// Whoever has data delegated to a DAO is listed among its delegators.
pub open spec fn delegations_listed(m: CoalitionModel) -> bool {
    forall|s: UserSlot| #[trigger] (m.delegations)(s) > 0 ==> (m.delegators)(s.dao).contains(s.user)
}

/// `u` is the id of a registered user.
pub open spec fn registered(m: CoalitionModel, u: UserId) -> bool {
    1 <= u <= m.users.len()
}

/// Registering `a` gives it an id that fits a `usize`.
pub open spec fn can_register(m: CoalitionModel, a: Address) -> bool {
    m.users.contains(a) || m.users.len() < usize::MAX
}

/// Stakes, locks and board seats belong to registered users only.
pub open spec fn entries_registered(m: CoalitionModel) -> bool {
    &&& m.users.len() <= usize::MAX
    &&& forall|s: UserSlot| #[trigger] (m.stakes)(s) > 0 ==> registered(m, s.user)
    &&& forall|s: UserSlot| #[trigger] (m.unlock_time)(s) > 0 ==> registered(m, s.user)
    &&& forall|d: Address, u: UserId| #[trigger] (m.board_members)(d).contains(u) ==> registered(m, u)
}

/// What holds of the storage in every reachable state.
pub open spec fn storage_invariant(m: CoalitionModel) -> bool {
    sets_unique(m) && delegations_listed(m) && entries_registered(m)
}

/// The storage a call leaves behind keeps every registered user, in place.
pub open spec fn keeps_users(m: CoalitionModel, after: CoalitionModel) -> bool {
    m.users.is_prefix_of(after.users)
}

/// Fresh storage satisfies the invariant.
pub proof fn law_fresh_storage_satisfies_invariant()
    ensures
        storage_invariant(empty_model()),
{
    let m = empty_model();
    assert forall|d: Address| (#[trigger] (m.board_members)(d)).no_duplicates() by {}
    assert forall|d: Address| (#[trigger] (m.delegators)(d)).no_duplicates() by {}
    assert forall|d: Address| (#[trigger] (m.categories)(d)).no_duplicates() by {}
}

/// A registered address keeps its id when the storage only grows its users.
pub proof fn law_user_ids_are_permanent(m: CoalitionModel, after: CoalitionModel, a: Address)
    requires
        keeps_users(m, after),
        m.users.contains(a),
    ensures
        after.user_id(a) == m.user_id(a),
{
    let i = crate::storage::first_index(m.users, a);
    let n = m.users.len() as int;
    crate::storage::lemma_first_index_of_member(m.users, a);
    assert(m.users =~= after.users.subrange(0, n));
    assert(after.users[i] == m.users[i]);
    assert forall|j: int| 0 <= j < i implies after.users[j] != a by {
        assert(after.users[j] == m.users[j]);
    }
    crate::storage::lemma_first_index(after.users, a, i);
}

/// Registering a user keeps the invariant and every earlier user, and gives it a registered id.
pub proof fn law_registration_keeps_invariant(m: CoalitionModel, a: Address)
    requires
        storage_invariant(m),
        can_register(m, a),
    ensures
        storage_invariant(m.with_user(a)),
        keeps_users(m, m.with_user(a)),
        m.with_user(a).user_id(a) == m.user_id_after_register(a),
        registered(m.with_user(a), m.user_id_after_register(a)),
        forall|u: UserId| registered(m, u) ==> #[trigger] registered(m.with_user(a), u),
{
    lemma_inserted_members(m.users, a);
    crate::state::lemma_register_twice(m, a);
    if m.users.contains(a) {
        crate::storage::lemma_first_index_of_member(m.users, a);
    }
    let n = m.with_user(a);
    assert forall|d: Address, u: UserId| #[trigger] (n.board_members)(d).contains(u) implies registered(n, u) by {
        assert((m.board_members)(d).contains(u));
    }
}

/// Admin changes, DAO registration and plain settings keep the invariant and the users.
pub proof fn law_settings_keep_invariant(m: CoalitionModel, a: Address)
    requires
        storage_invariant(m),
    ensures
        storage_invariant(m.with_admins(set_inserted(m.admins, a))),
        storage_invariant(m.with_admins(set_swap_removed(m.admins, a))),
        storage_invariant(m.with_daos(set_inserted(m.daos, a))),
        forall|t: Seq<u8>| #[trigger] storage_invariant(m.with_native_token(t)),
        forall|o: Option<Address>| #[trigger] storage_invariant(m.with_dao_manager(o)),
        forall|o: Option<Address>| #[trigger] storage_invariant(m.with_data_aggregator(o)),
        forall|id: AppId| #[trigger] storage_invariant(m.with_coalitions(updated(m.coalitions, a, Some(id)))),
        forall|v: nat| #[trigger] storage_invariant(m.with_board_stake_amount(updated(m.board_stake_amount, a, v))),
        forall|v: u64| #[trigger] storage_invariant(m.with_board_stake_duration(updated(m.board_stake_duration, a, v))),
        forall|v: u64| #[trigger] storage_invariant(m.with_stake_lock_time(updated(m.stake_lock_time, a, v))),
        forall|s: UserSlot, v: u64|
            (registered(m, s.user) || v == 0) ==> #[trigger] storage_invariant(
                m.with_unlock_time(updated(m.unlock_time, s, v)),
            ),
        forall|d: Address, t: Seq<u8>, v: u64| #[trigger] storage_invariant(staking_configured(m, d, t, v)),
{
    lemma_inserted_members(m.admins, a);
    lemma_swap_removed_members(m.admins, a);
    lemma_inserted_members(m.daos, a);
}

/// Adding or removing a category keeps the invariant.
pub proof fn law_category_changes_keep_invariant(m: CoalitionModel, dao: Address, name: Seq<u8>)
    requires
        storage_invariant(m),
    ensures
        storage_invariant(m.with_categories(updated(m.categories, dao, set_inserted((m.categories)(dao), name)))),
        storage_invariant(m.with_categories(updated(m.categories, dao, set_swap_removed((m.categories)(dao), name)))),
{
    lemma_inserted_members((m.categories)(dao), name);
    lemma_swap_removed_members((m.categories)(dao), name);
    let m1 = m.with_categories(updated(m.categories, dao, set_inserted((m.categories)(dao), name)));
    let m2 = m.with_categories(updated(m.categories, dao, set_swap_removed((m.categories)(dao), name)));
    assert forall|d: Address| (#[trigger] (m1.categories)(d)).no_duplicates() by {
        if d != dao {
            assert((m.categories)(d).no_duplicates());
        }
    }
    assert forall|d: Address| (#[trigger] (m2.categories)(d)).no_duplicates() by {
        if d != dao {
            assert((m.categories)(d).no_duplicates());
        }
    }
}

/// Board membership and unlocking keep the invariant and the users.
pub proof fn law_board_changes_keep_invariant(m: CoalitionModel, dao: Address, a: Address)
    requires
        storage_invariant(m),
        can_register(m, a),
    ensures
        storage_invariant(with_board_member(m, dao, a)),
        keeps_users(m, with_board_member(m, dao, a)),
        storage_invariant(unlocked(m, dao, a)),
        keeps_users(m, unlocked(m, dao, a)),
{
    law_registration_keeps_invariant(m, a);
    let u = m.user_id_after_register(a);
    lemma_inserted_members((m.board_members)(dao), u);
    let m1 = with_board_member(m, dao, a);
    let n = m.with_user(a);
    assert forall|d: Address| (#[trigger] (m1.board_members)(d)).no_duplicates() by {
        if d != dao {
            assert((m.board_members)(d).no_duplicates());
        }
    }
    assert forall|d: Address, v: UserId| #[trigger] (m1.board_members)(d).contains(v) implies registered(m1, v) by {
        if d != dao || v != u {
            assert((m.board_members)(d).contains(v));
            assert(registered(n, v));
        }
    }
    let m2 = unlocked(m, dao, a);
    assert forall|t: UserSlot| #[trigger] (m2.unlock_time)(t) > 0 implies registered(m2, t.user) by {
        assert((m.unlock_time)(t) > 0);
        assert(registered(n, t.user));
    }
    assert forall|d: Address, v: UserId| #[trigger] (m2.board_members)(d).contains(v) implies registered(m2, v) by {
        assert(registered(n, v));
    }
}

/// Staking and unstaking keep the invariant and the users.
pub proof fn law_staking_keeps_invariant(m: CoalitionModel, caller: Address, dao: Address, amount: nat, until: u64)
    requires
        storage_invariant(m),
        can_register(m, caller),
    ensures
        storage_invariant(staked(m, caller, dao, amount, until)),
        keeps_users(m, staked(m, caller, dao, amount, until)),
        storage_invariant(unstaked(m, caller, dao, amount)),
        keeps_users(m, unstaked(m, caller, dao, amount)),
{
    law_registration_keeps_invariant(m, caller);
    let u = m.user_id_after_register(caller);
    let n = m.with_user(caller);
    let m1 = staked(m, caller, dao, amount, until);
    let m2 = unstaked(m, caller, dao, amount);
    assert forall|t: UserSlot| #[trigger] (m1.stakes)(t) > 0 implies registered(m1, t.user) by {
        if t != slot(dao, u) {
            assert(registered(n, t.user));
        }
    }
    assert forall|t: UserSlot| #[trigger] (m1.unlock_time)(t) > 0 implies registered(m1, t.user) by {
        if t != slot(dao, u) {
            assert(registered(n, t.user));
        }
    }
    assert forall|t: UserSlot| #[trigger] (m2.stakes)(t) > 0 implies registered(m2, t.user) by {
        if t != slot(dao, u) {
            assert(registered(n, t.user));
        }
    }
    assert forall|t: UserSlot| #[trigger] (m2.unlock_time)(t) > 0 implies registered(m2, t.user) by {
        assert(registered(n, t.user));
    }
    assert forall|d: Address, v: UserId| #[trigger] (m1.board_members)(d).contains(v) implies registered(m1, v) by {
        assert(registered(n, v));
    }
    assert forall|d: Address, v: UserId| #[trigger] (m2.board_members)(d).contains(v) implies registered(m2, v) by {
        assert(registered(n, v));
    }
}

/// Making a DAO a coalition, with its creator on the board, keeps the invariant and the users.
pub proof fn law_coalition_creation_keeps_invariant(
    m: CoalitionModel,
    dao: Address,
    app_id: AppId,
    native_token: Seq<u8>,
    lock: u64,
    creator: Address,
)
    requires
        storage_invariant(m),
        can_register(m, creator),
    ensures
        storage_invariant(coalition_configured(m, dao, app_id, native_token, lock)),
        storage_invariant(coalition_created(m, dao, app_id, native_token, lock, creator)),
        keeps_users(m, coalition_created(m, dao, app_id, native_token, lock, creator)),
{
    law_settings_keep_invariant(m, dao);
    let d = m.with_daos(set_inserted(m.daos, dao));
    law_settings_keep_invariant(d, dao);
    let c = coalition_configured(d, dao, app_id, native_token, lock);
    assert(storage_invariant(c));
    law_board_changes_keep_invariant(c, dao, creator);
}

/// The answers of the aggregator keep the invariant and the users.
pub proof fn law_delegation_bookkeeping_keeps_invariant(
    m: CoalitionModel,
    caller: Address,
    dao: Address,
    count: nat,
    succeeded: bool,
)
    requires
        storage_invariant(m),
    ensures
        storage_invariant(after_grant(m, caller, dao, count, succeeded)),
        keeps_users(m, after_grant(m, caller, dao, count, succeeded)),
        !revoke_faults(m, caller, dao, succeeded) ==> storage_invariant(after_revoke(m, caller, dao, succeeded)),
        keeps_users(m, after_revoke(m, caller, dao, succeeded)),
{
    assert(m.users.is_prefix_of(m.users));
    if succeeded {
        let u = m.user_id(caller);
        let s = slot(dao, u);
        lemma_inserted_members((m.delegators)(dao), u);
        lemma_swap_removed_members((m.delegators)(dao), u);
        let g = after_grant(m, caller, dao, count, succeeded);
        assert forall|d: Address| (#[trigger] (g.delegators)(d)).no_duplicates() by {
            if d != dao {
                assert((m.delegators)(d).no_duplicates());
            }
        }
        assert forall|t: UserSlot| #[trigger] (g.delegations)(t) > 0 implies (g.delegators)(t.dao).contains(t.user) by {
            if t != s {
                assert((m.delegations)(t) > 0);
                assert((m.delegators)(t.dao).contains(t.user));
            }
        }
        if !revoke_faults(m, caller, dao, succeeded) {
            let r = after_revoke(m, caller, dao, succeeded);
            let left = ((m.delegations)(s) - 1) as nat;
            assert forall|d: Address| (#[trigger] (r.delegators)(d)).no_duplicates() by {
                if d != dao {
                    assert((m.delegators)(d).no_duplicates());
                }
            }
            assert forall|t: UserSlot| #[trigger] (r.delegations)(t) > 0 implies (r.delegators)(t.dao).contains(t.user) by {
                if t != s {
                    assert((m.delegations)(t) > 0);
                    assert((m.delegators)(t.dao).contains(t.user));
                    if left == 0 && t.dao == dao {
                        assert(t.user != u);
                    }
                } else {
                    assert(left > 0);
                    assert((m.delegations)(s) > 0);
                }
            }
        }
    }
}

/// Unstaking what was just staked gives every stake back its old value.
pub proof fn law_unstake_undoes_stake(m: CoalitionModel, caller: Address, dao: Address, amount: nat, until: u64)
    ensures
        unstaked(staked(m, caller, dao, amount, until), caller, dao, amount).stakes == m.stakes,
{
    crate::state::lemma_register_twice(m, caller);
    let after = unstaked(staked(m, caller, dao, amount, until), caller, dao, amount);
    assert(after.stakes =~= m.stakes);
}

/// Revoking one item right after it was granted gives back the old
/// delegations and delegators, for a caller that is listed exactly when it
/// has something delegated.
pub proof fn law_revoke_undoes_grant(m: CoalitionModel, caller: Address, dao: Address)
    requires
        (m.delegators)(dao).contains(m.user_id(caller)) <==> (m.delegations)(slot(dao, m.user_id(caller))) > 0,
    ensures
        !revoke_faults(after_grant(m, caller, dao, 1, true), caller, dao, true),
        after_revoke(after_grant(m, caller, dao, 1, true), caller, dao, true).delegations == m.delegations,
        after_revoke(after_grant(m, caller, dao, 1, true), caller, dao, true).delegators == m.delegators,
{
    let u = m.user_id(caller);
    let s = slot(dao, u);
    let g = after_grant(m, caller, dao, 1, true);
    let r = after_revoke(g, caller, dao, true);
    assert(g.user_id(caller) == u);
    assert((g.delegations)(s) == (m.delegations)(s) + 1);
    assert(r.delegations =~= m.delegations);
    if (m.delegations)(s) == 0 {
        assert(!(m.delegators)(dao).contains(u));
        lemma_swap_remove_undoes_insert((m.delegators)(dao), u);
    } else {
        assert(set_inserted((m.delegators)(dao), u) == (m.delegators)(dao));
    }
    assert forall|d: Address| #[trigger] (r.delegators)(d) == (m.delegators)(d) by {}
    assert(r.delegators =~= m.delegators);
}

/// After an address is added to a set it is a member; after it is removed
/// from a set without duplicates it is not, and the other members stay.
pub proof fn law_set_membership<A>(s: Seq<A>, x: A)
    ensures
        set_inserted(s, x).contains(x),
        s.no_duplicates() ==> !set_swap_removed(s, x).contains(x),
        s.no_duplicates() ==> forall|y: A| y != x ==> (#[trigger] set_swap_removed(s, x).contains(y) <==> s.contains(y)),
        !s.contains(x) ==> set_swap_removed(set_inserted(s, x), x) == s,
{
    lemma_inserted_members(s, x);
    if s.no_duplicates() {
        lemma_swap_removed_members(s, x);
    }
    if !s.contains(x) {
        lemma_swap_remove_undoes_insert(s, x);
    }
}

/// The shortest big-endian digits of a number read back as that number.
pub proof fn law_minimal_be_round_trip(n: nat)
    ensures
        be_value(minimal_be(n)) == n,
    decreases n,
{
    if n == 0 {
        assert(minimal_be(0).reverse().len() == 0);
    } else {
        law_minimal_be_round_trip(n / 256);
        lemma_be_push(minimal_be(n / 256), (n % 256) as u8);
    }
}


/// The slot where `caller`'s stake in `dao` is kept once `caller` is registered.
pub open spec fn stake_slot(m: CoalitionModel, caller: Address, dao: Address) -> UserSlot {
    slot(dao, m.user_id_after_register(caller))
}

/// After a successful stake of `payment`, as long as later calls leave the
/// users in place and do not touch the staker's stake, its lock or the
/// native token, unstaking the same amount once the lock has ended
/// succeeds, pays the staked token back, and gives the stake its old value.
pub proof fn law_unstake_after_lock_returns_stake(
    s0: CoalitionModel,
    ctx0: CallContext,
    payment: PaymentView,
    dao: Address,
    extra: u64,
    s: CoalitionModel,
    ctx: CallContext,
)
    requires
        stake_error(s0, ctx0, payment, dao, extra) is None,
        payment.amount > 0,
        ctx.caller == ctx0.caller,
        keeps_users(staked(s0, ctx0.caller, dao, payment.amount, lock_end(s0, ctx0, dao, extra)->0), s),
        (s.stakes)(stake_slot(s0, ctx0.caller, dao)) == (staked(
            s0,
            ctx0.caller,
            dao,
            payment.amount,
            lock_end(s0, ctx0, dao, extra)->0,
        ).stakes)(stake_slot(s0, ctx0.caller, dao)),
        (s.unlock_time)(stake_slot(s0, ctx0.caller, dao)) == lock_end(s0, ctx0, dao, extra)->0,
        s.native_token == s0.native_token,
        ctx.block_timestamp > lock_end(s0, ctx0, dao, extra)->0,
    ensures
        unstake_error(s, ctx, dao, payment.amount) is None,
        s.native_token == payment.token_identifier,
        stake_slot(s, ctx.caller, dao) == stake_slot(s0, ctx0.caller, dao),
        (unstaked(s, ctx.caller, dao, payment.amount).stakes)(stake_slot(s0, ctx0.caller, dao)) == (s0.stakes)(
            stake_slot(s0, ctx0.caller, dao),
        ),
{
    let c = ctx0.caller;
    let s1 = staked(s0, c, dao, payment.amount, lock_end(s0, ctx0, dao, extra)->0);
    crate::state::lemma_register_twice(s0, c);
    assert(s1.users == s0.with_user(c).users);
    law_user_ids_are_permanent(s1, s, c);
    let n = s1.users.len() as int;
    assert(s1.users =~= s.users.subrange(0, n));
    let k = choose|k: int| 0 <= k < s1.users.len() && s1.users[k] == c;
    assert(s.users[k] == c);
    assert(s.users.contains(c));
}

} // verus!
