use vstd::prelude::*;

use crate::address::{Address, Member, UserSlot};
use crate::amount::Amount;
use crate::laws::{law_settings_keep_invariant, law_staking_keeps_invariant, registered, storage_invariant};
use crate::state::{slot, CoalitionModel, CoalitionState};
use crate::storage::{lemma_swap_remove_undoes_insert, updated};
use crate::types::{payment_views, CallContext, CoalitionError, EsdtPayment, PaymentView, Transfer, TransferView, UserId};

verus! {

/// When a stake made now in `dao` unlocks: now, plus the DAO's lock time,
/// plus `extra` seconds; `None` when that overflows a `u64`.
pub open spec fn lock_end(m: CoalitionModel, ctx: CallContext, dao: Address, extra: u64) -> Option<u64> {
    let t = ctx.block_timestamp + (m.stake_lock_time)(dao);
    if t > u64::MAX || t + extra > u64::MAX {
        None
    } else {
        Some((t + extra) as u64)
    }
}

/// Why staking `payment` fails, if it does.
pub open spec fn stake_error(m: CoalitionModel, ctx: CallContext, payment: PaymentView, dao: Address, extra: u64) -> Option<
    CoalitionError,
> {
    if m.native_token.len() == 0 {
        Some(CoalitionError::StakeTokenNotSet)
    } else if payment.token_identifier != m.native_token {
        Some(CoalitionError::InvalidStakeToken)
    } else if payment.token_nonce != 0 {
        Some(CoalitionError::StakeTokenNotFungible)
    } else if lock_end(m, ctx, dao, extra) is None {
        Some(CoalitionError::Panic)
    } else {
        None
    }
}

/// The storage after the caller stakes `amount` in `dao`, locked until `until`.
pub open spec fn staked(m: CoalitionModel, caller: Address, dao: Address, amount: nat, until: u64) -> CoalitionModel {
    let s = slot(dao, m.user_id_after_register(caller));
    m.with_user(caller).with_stakes(updated(m.stakes, s, (m.stakes)(s) + amount)).with_unlock_time(
        updated(m.unlock_time, s, until),
    )
}

/// Why unstaking `amount` from `dao` fails, if it does.
pub open spec fn unstake_error(m: CoalitionModel, ctx: CallContext, dao: Address, amount: nat) -> Option<CoalitionError> {
    let s = slot(dao, m.user_id_after_register(ctx.caller));
    if amount == 0 {
        Some(CoalitionError::UnstakeZero)
    } else if (m.stakes)(s) == 0 {
        Some(CoalitionError::NoStakeToUnstake)
    } else if (m.stakes)(s) < amount {
        Some(CoalitionError::InsufficientStake)
    } else if !(ctx.block_timestamp > (m.unlock_time)(s)) {
        Some(CoalitionError::StakeLocked)
    } else {
        None
    }
}

/// The storage after the caller takes `amount` out of its stake in `dao`.
pub open spec fn unstaked(m: CoalitionModel, caller: Address, dao: Address, amount: nat) -> CoalitionModel {
    let s = slot(dao, m.user_id_after_register(caller));
    m.with_user(caller).with_stakes(updated(m.stakes, s, ((m.stakes)(s) - amount) as nat))
}

/// Staking of the native token, per DAO, with a lock time.
pub trait StakeModule {
    /// Stakes `payment` in `dao` for the caller and locks the stake.
    fn stake_endpoint(
        &mut self,
        ctx: &CallContext,
        payment: EsdtPayment,
        dao: Address,
        extra_lock_seconds: u64,
    ) -> Result<(), CoalitionError>;

    /// Takes `amount` out of the caller's unlocked stake in `dao`; gives the transfer back to the caller.
    fn unstake_endpoint(&mut self, ctx: &CallContext, dao: Address, amount: Amount) -> Result<Transfer, CoalitionError>;

    /// Locks `user`'s stake in `dao` for the DAO's lock time plus `extra_lock_seconds`.
    fn lock_stake_for(&mut self, ctx: &CallContext, dao: &Address, user: UserId, extra_lock_seconds: u64) -> Result<
        (),
        CoalitionError,
    >;

    /// Fails unless `user`'s stake in `dao` is unlocked.
    fn require_stake_unlocked_for(&self, ctx: &CallContext, dao: &Address, user: UserId) -> Result<(), CoalitionError>;

    /// When `user`'s stake in `dao` unlocks.
    fn get_stake_unlock_time(&self, dao: Address, user: UserId) -> u64;

    /// How long a new stake in `dao` is locked.
    fn get_stake_lock_time_seconds(&self, dao: Address) -> u64;
}

impl StakeModule for CoalitionState {
    fn stake_endpoint(
        &mut self,
        ctx: &CallContext,
        payment: EsdtPayment,
        dao: Address,
        extra_lock_seconds: u64,
    ) -> (r: Result<(), CoalitionError>)
        ensures
            r is Err <==> stake_error(old(self)@, *ctx, payment@, dao, extra_lock_seconds) is Some,
            r matches Err(e) ==> Some(e) == stake_error(old(self)@, *ctx, payment@, dao, extra_lock_seconds)
                && final(self)@ == old(self)@,
            r is Ok ==> final(self)@ == staked(
                old(self)@,
                ctx.caller,
                dao,
                payment@.amount,
                lock_end(old(self)@, *ctx, dao, extra_lock_seconds)->0,
            ),
            storage_invariant(old(self)@) ==> storage_invariant(final(self)@),
    {
        let native = self.native_token();
        if native.len() == 0 {
            return Err(CoalitionError::StakeTokenNotSet);
        }
        if !payment.token_identifier.same(&native) {
            return Err(CoalitionError::InvalidStakeToken);
        }
        if payment.token_nonce != 0 {
            return Err(CoalitionError::StakeTokenNotFungible);
        }
        let caller = ctx.caller;
        let known = self.user_id(&caller) != 0;
        let user = self.get_or_create_user(&caller);
        proof {
            if storage_invariant(old(self)@) {
                let until = lock_end(old(self)@, *ctx, dao, extra_lock_seconds)->0;
                law_staking_keeps_invariant(old(self)@, caller, dao, payment@.amount, until);
            }
        }
        if let Err(e) = self.lock_stake_for(ctx, &dao, user, extra_lock_seconds) {
            if !known {
                self.forget_user(&caller);
                proof {
                    lemma_swap_remove_undoes_insert(old(self)@.users, caller);
                    assert(self@ =~= old(self)@);
                }
            } else {
                assert(self@ =~= old(self)@);
            }
            return Err(e);
        }
        let s = UserSlot { dao, user };
        let total = self.stake(&s).add(&payment.amount);
        self.set_stake(s, total);
        proof {
            let m = old(self)@;
            let until = lock_end(m, *ctx, dao, extra_lock_seconds)->0;
            assert(self@ =~= staked(m, caller, dao, payment@.amount, until));
        }
        Ok(())
    }

    fn unstake_endpoint(&mut self, ctx: &CallContext, dao: Address, amount: Amount) -> (r: Result<Transfer, CoalitionError>)
        ensures
            r is Err <==> unstake_error(old(self)@, *ctx, dao, amount@) is Some,
            r matches Err(e) ==> Some(e) == unstake_error(old(self)@, *ctx, dao, amount@) && final(self)@ == old(self)@,
            r matches Ok(t) ==> final(self)@ == unstaked(old(self)@, ctx.caller, dao, amount@) && t@ == (TransferView {
                to: ctx.caller,
                payments: seq![PaymentView { token_identifier: old(self)@.native_token, token_nonce: 0, amount: amount@ }],
            }),
            storage_invariant(old(self)@) ==> storage_invariant(final(self)@),
    {
        let caller = ctx.caller;
        let known = self.user_id(&caller) != 0;
        let user = self.get_or_create_user(&caller);
        proof {
            if storage_invariant(old(self)@) {
                law_staking_keeps_invariant(old(self)@, caller, dao, amount@, 0);
            }
        }
        let native_token = self.native_token();
        let s = UserSlot { dao, user };
        let stake = self.stake(&s);
        let failure = if amount.is_zero() {
            Some(CoalitionError::UnstakeZero)
        } else if stake.is_zero() {
            Some(CoalitionError::NoStakeToUnstake)
        } else if !stake.ge(&amount) {
            Some(CoalitionError::InsufficientStake)
        } else {
            match self.require_stake_unlocked_for(ctx, &dao, user) {
                Err(e) => Some(e),
                Ok(()) => None,
            }
        };
        if let Some(e) = failure {
            if !known {
                self.forget_user(&caller);
                proof {
                    lemma_swap_remove_undoes_insert(old(self)@.users, caller);
                }
            }
            assert(self@ =~= old(self)@);
            return Err(e);
        }
        let rest = match stake.checked_sub(&amount) {
            Some(d) => d,
            None => return Err(CoalitionError::Panic),
        };
        self.set_stake(s, rest);
        let payment = EsdtPayment { token_identifier: native_token, token_nonce: 0, amount };
        let ghost pv = payment@;
        let mut payments: Vec<EsdtPayment> = Vec::new();
        payments.push(payment);
        assert(payment_views(payments@) =~= seq![pv]);
        assert(self@ =~= unstaked(old(self)@, caller, dao, pv.amount));
        Ok(Transfer { to: caller, payments })
    }

    fn lock_stake_for(&mut self, ctx: &CallContext, dao: &Address, user: UserId, extra_lock_seconds: u64) -> (r: Result<
        (),
        CoalitionError,
    >)
        ensures
            r is Err <==> lock_end(old(self)@, *ctx, *dao, extra_lock_seconds) is None,
            r matches Err(e) ==> e == CoalitionError::Panic && final(self)@ == old(self)@,
            r is Ok ==> final(self)@ == old(self)@.with_unlock_time(
                updated(old(self)@.unlock_time, slot(*dao, user), lock_end(old(self)@, *ctx, *dao, extra_lock_seconds)->0),
            ),
            storage_invariant(old(self)@) && registered(old(self)@, user) ==> storage_invariant(final(self)@),
    {
        proof {
            if storage_invariant(old(self)@) {
                law_settings_keep_invariant(old(self)@, *dao);
            }
        }
        let base = match ctx.block_timestamp.checked_add(self.stake_lock_time(dao)) {
            Some(t) => t,
            None => return Err(CoalitionError::Panic),
        };
        let lock_until = match base.checked_add(extra_lock_seconds) {
            Some(t) => t,
            None => return Err(CoalitionError::Panic),
        };
        self.set_unlock_time(UserSlot { dao: *dao, user }, lock_until);
        Ok(())
    }

    fn require_stake_unlocked_for(&self, ctx: &CallContext, dao: &Address, user: UserId) -> (r: Result<(), CoalitionError>)
        ensures
            r is Ok <==> ctx.block_timestamp > (self@.unlock_time)(slot(*dao, user)),
            r is Err ==> r == Err::<(), CoalitionError>(CoalitionError::StakeLocked),
    {
        let current_time = ctx.block_timestamp;
        let unlock_time = self.unlock_time(&UserSlot { dao: *dao, user });
        if current_time > unlock_time {
            Ok(())
        } else {
            Err(CoalitionError::StakeLocked)
        }
    }

    fn get_stake_unlock_time(&self, dao: Address, user: UserId) -> (r: u64)
        ensures
            r == (self@.unlock_time)(slot(dao, user)),
    {
        self.unlock_time(&UserSlot { dao, user })
    }

    fn get_stake_lock_time_seconds(&self, dao: Address) -> (r: u64)
        ensures
            r == (self@.stake_lock_time)(dao),
    {
        self.stake_lock_time(&dao)
    }
}

} // verus!
