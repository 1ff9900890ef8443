use vstd::prelude::*;

use crate::address::{zero_address, Address, UserSlot};
use crate::board::{accept_error, unlock_error, unlocked, with_board_member};
use crate::coalition::{after_grant, after_revoke, coalition_created, info_of, revoke_faults};
use crate::dao::vote_weight;
use crate::state::{lemma_register_twice, slot, CoalitionModel};
use crate::storage::{lemma_inserted_members, lemma_swap_removed_members};
use crate::stake::{lock_end, stake_error, staked, unstake_error, unstaked};
use crate::types::{CallContext, CoalitionError, PaymentView};

verus! {

/// Creating a coalition records the DAO as created here with its
/// application and staking terms, registers the creator, and seats the
/// creator on the DAO's board, whether or not it was registered before.
/// Other DAOs' boards, all stakes, locks and delegations, the admins and
/// the staked token stay as they were.
pub proof fn law_creation_seats_the_creator(
    m: CoalitionModel,
    dao: Address,
    app_id: u64,
    native_token: Seq<u8>,
    stake_lock_time: u64,
    creator: Address,
)
    ensures
        ({
            let f = coalition_created(m, dao, app_id, native_token, stake_lock_time, creator);
            &&& f.daos.contains(dao)
            &&& (f.coalitions)(dao) == Some(app_id)
            &&& (f.staking_tokens)(dao) == native_token
            &&& (f.stake_lock_time)(dao) == stake_lock_time
            &&& f.users.contains(creator)
            &&& (f.board_members)(dao).contains(f.user_id(creator))
            &&& f.user_id(creator) == m.user_id_after_register(creator)
            &&& (m.users.contains(creator) ==> f.user_id(creator) == m.user_id(creator))
            &&& forall|d: Address| d != dao ==> #[trigger] (f.board_members)(d) == (m.board_members)(d)
            &&& f.stakes == m.stakes
            &&& f.unlock_time == m.unlock_time
            &&& f.delegations == m.delegations
            &&& f.admins == m.admins
            &&& f.native_token == m.native_token
        }),
{
    let d = m.with_daos(crate::storage::set_inserted(m.daos, dao));
    lemma_inserted_members(m.daos, dao);
    let c = crate::coalition::coalition_configured(d, dao, app_id, native_token, stake_lock_time);
    lemma_register_twice(c, creator);
    lemma_inserted_members((c.board_members)(dao), c.user_id_after_register(creator));
    assert(c.users == m.users);
}

/// A stake is accepted exactly when the staked token is set, the payment is
/// of that token and fungible, and now plus the DAO's lock time plus the
/// extra seconds fits a `u64`. Then the staker's stake in the DAO grows by
/// the amount paid, and it unlocks at now plus the lock time plus the extra
/// seconds, whatever it had staked before; no other stake or lock changes.
pub proof fn law_stake_adds_and_locks_from_now(
    m: CoalitionModel,
    ctx: CallContext,
    payment: PaymentView,
    dao: Address,
    extra: u64,
)
    ensures
        (stake_error(m, ctx, payment, dao, extra) is None) <==> (m.native_token.len() > 0
            && payment.token_identifier == m.native_token && payment.token_nonce == 0
            && ctx.block_timestamp + (m.stake_lock_time)(dao) + extra <= u64::MAX),
        stake_error(m, ctx, payment, dao, extra) is None ==> ({
            let f = staked(m, ctx.caller, dao, payment.amount, lock_end(m, ctx, dao, extra)->0);
            let k = slot(dao, f.user_id(ctx.caller));
            &&& f.users.contains(ctx.caller)
            &&& f.user_id(ctx.caller) == m.user_id_after_register(ctx.caller)
            &&& (f.stakes)(k) == (m.stakes)(k) + payment.amount
            &&& (f.unlock_time)(k) == ctx.block_timestamp + (m.stake_lock_time)(dao) + extra
            &&& forall|t: UserSlot| t != k ==> #[trigger] (f.stakes)(t) == (m.stakes)(t)
            &&& forall|t: UserSlot| t != k ==> #[trigger] (f.unlock_time)(t) == (m.unlock_time)(t)
        }),
        lock_end(m, ctx, dao, extra) is Some <==> ctx.block_timestamp + (m.stake_lock_time)(dao) + extra <= u64::MAX,
        lock_end(m, ctx, dao, extra) matches Some(t) ==> t == ctx.block_timestamp + (m.stake_lock_time)(dao) + extra,
{
    lemma_register_twice(m, ctx.caller);
}

/// An unstake is accepted exactly when the amount is positive, the caller's
/// stake in the DAO covers it, and its lock has ended. Then that stake
/// shrinks by the amount, and no other stake and no lock changes.
pub proof fn law_unstake_takes_from_unlocked_stake(m: CoalitionModel, ctx: CallContext, dao: Address, amount: nat)
    ensures
        ({
            let k = slot(dao, m.user_id_after_register(ctx.caller));
            (unstake_error(m, ctx, dao, amount) is None) <==> (amount > 0 && (m.stakes)(k) >= amount
                && ctx.block_timestamp > (m.unlock_time)(k))
        }),
        unstake_error(m, ctx, dao, amount) is None ==> ({
            let f = unstaked(m, ctx.caller, dao, amount);
            let k = slot(dao, f.user_id(ctx.caller));
            &&& f.user_id(ctx.caller) == m.user_id_after_register(ctx.caller)
            &&& (f.stakes)(k) + amount == (m.stakes)(k)
            &&& forall|t: UserSlot| t != k ==> #[trigger] (f.stakes)(t) == (m.stakes)(t)
            &&& f.unlock_time == m.unlock_time
        }),
{
    lemma_register_twice(m, ctx.caller);
}

/// A DAO accepts a board member exactly when the DAO was created here, the
/// member's stake in it covers the board's minimum, and that stake stays
/// locked past now plus the board's duration (which must fit a `u64`).
/// Then the member is registered and seated, and no stake, lock or other
/// board changes.
pub proof fn law_board_needs_stake_and_lock(m: CoalitionModel, ctx: CallContext, address: Address)
    ensures
        ({
            let dao = ctx.caller;
            let k = slot(dao, m.user_id_after_register(address));
            (accept_error(m, ctx, address) is None) <==> (m.daos.contains(dao) && (m.stakes)(k) >= (
            m.board_stake_amount)(dao) && ctx.block_timestamp + (m.board_stake_duration)(dao) <= u64::MAX
                && (m.unlock_time)(k) > ctx.block_timestamp + (m.board_stake_duration)(dao))
        }),
        accept_error(m, ctx, address) is None ==> ({
            let f = with_board_member(m, ctx.caller, address);
            &&& (f.board_members)(ctx.caller).contains(f.user_id(address))
            &&& f.user_id(address) == m.user_id_after_register(address)
            &&& forall|d: Address| d != ctx.caller ==> #[trigger] (f.board_members)(d) == (m.board_members)(d)
            &&& f.stakes == m.stakes
            &&& f.unlock_time == m.unlock_time
        }),
{
    let f = with_board_member(m, ctx.caller, address);
    lemma_register_twice(m, address);
    lemma_inserted_members((m.board_members)(ctx.caller), m.user_id_after_register(address));
}

/// A DAO unlocks exactly the stake of one of its board members: the call is
/// accepted when the DAO was created here and the address sits on its
/// board; the member's lock in that DAO is then cleared and nothing else
/// about stakes, locks or boards changes.
pub proof fn law_unlock_clears_a_board_members_lock(m: CoalitionModel, ctx: CallContext, address: Address)
    ensures
        (unlock_error(m, ctx, address) is None) <==> (m.daos.contains(ctx.caller) && (m.board_members)(
            ctx.caller,
        ).contains(m.user_id_after_register(address))),
        unlock_error(m, ctx, address) is None ==> ({
            let f = unlocked(m, ctx.caller, address);
            let k = slot(ctx.caller, f.user_id(address));
            &&& f.user_id(address) == m.user_id_after_register(address)
            &&& (f.unlock_time)(k) == 0
            &&& forall|t: UserSlot| t != k ==> #[trigger] (f.unlock_time)(t) == (m.unlock_time)(t)
            &&& f.stakes == m.stakes
            &&& f.board_members == m.board_members
        }),
{
    lemma_register_twice(m, address);
}

/// The vote weight a DAO gives a registered address is what that address
/// delegated to the DAO, whatever it staked; an unregistered address weighs nothing.
pub proof fn law_vote_weight_is_delegation(m: CoalitionModel, dao: Address, address: Address)
    ensures
        m.user_id(address) != 0 ==> vote_weight(m, dao, address) == (m.delegations)(slot(dao, m.user_id(address))),
        m.user_id(address) == 0 ==> vote_weight(m, dao, address) == 0,
{
}

/// The summary of a DAO reads that DAO's settings, and the stake and lock of
/// the requested address (the zero address when none is given) in it.
pub proof fn law_info_reads_the_requested_slots(m: CoalitionModel, dao: Address, address: Option<Address>)
    ensures
        ({
            let a = match address {
                Some(a) => a,
                None => zero_address(),
            };
            let k = slot(dao, m.user_id(a));
            let i = info_of(m, dao, address);
            &&& i.native_token == m.native_token
            &&& i.aggregator == m.data_aggregator->0
            &&& i.aggregator_app == match (m.coalitions)(dao) {
                Some(id) => id,
                None => 0,
            }
            &&& i.categories == (m.categories)(dao)
            &&& i.delegators == (m.delegators)(dao).len() as usize
            &&& i.board_stake_amount == (m.board_stake_amount)(dao)
            &&& i.board_stake_duration == (m.board_stake_duration)(dao)
            &&& i.stake_lock_time == (m.stake_lock_time)(dao)
            &&& i.user_stake == (m.stakes)(k)
            &&& i.user_stake_unlocks_at == (m.unlock_time)(k)
        }),
{
}

/// A confirmed delegation of `count` items lists the caller among the
/// DAO's delegators and adds `count` to its delegation count there; a
/// failed one changes nothing. No other delegation count changes.
pub proof fn law_grant_counts_delegated_items(m: CoalitionModel, caller: Address, dao: Address, count: nat, succeeded: bool)
    ensures
        ({
            let f = after_grant(m, caller, dao, count, succeeded);
            let k = slot(dao, m.user_id(caller));
            &&& succeeded ==> (f.delegators)(dao).contains(m.user_id(caller))
            &&& succeeded ==> (f.delegations)(k) == (m.delegations)(k) + count
            &&& !succeeded ==> f == m
            &&& forall|t: UserSlot| t != k ==> #[trigger] (f.delegations)(t) == (m.delegations)(t)
            &&& f.users == m.users
        }),
{
    lemma_inserted_members((m.delegators)(dao), m.user_id(caller));
}

/// A confirmed undelegation takes one item off the caller's count in the
/// DAO, and fails when that count is zero; the caller leaves the DAO's
/// delegators exactly when its count reaches zero. A failed undelegation
/// changes nothing. No other delegation count changes.
pub proof fn law_revoke_counts_down(m: CoalitionModel, caller: Address, dao: Address, succeeded: bool)
    requires
        (m.delegators)(dao).no_duplicates(),
    ensures
        ({
            let k = slot(dao, m.user_id(caller));
            revoke_faults(m, caller, dao, succeeded) <==> (succeeded && (m.delegations)(k) == 0)
        }),
        !revoke_faults(m, caller, dao, succeeded) ==> ({
            let f = after_revoke(m, caller, dao, succeeded);
            let u = m.user_id(caller);
            let k = slot(dao, u);
            &&& succeeded ==> (f.delegations)(k) + 1 == (m.delegations)(k)
            &&& succeeded && (f.delegations)(k) == 0 ==> !(f.delegators)(dao).contains(u)
            &&& succeeded && (f.delegations)(k) > 0 ==> f.delegators == m.delegators
            &&& !succeeded ==> f == m
            &&& forall|t: UserSlot| t != k ==> #[trigger] (f.delegations)(t) == (m.delegations)(t)
            &&& f.users == m.users
        }),
{
    lemma_swap_removed_members((m.delegators)(dao), m.user_id(caller));
}

} // verus!
