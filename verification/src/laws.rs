//! What holds of the operations on every input.

use crate::accounts::{Deduct, InitializeStakingPool, InitializeToken, Stake, Unstake};
use crate::adr_token::{deduct_refusal, stake_refusal, unstake_refusal};
use crate::error::ErrorCode;
use crate::identity::Pubkey;
use crate::records::Records;
use crate::state::{StakerInfo, StakingPool, TokenInfoView};
use vstd::prelude::*;

verus! {

/// A deduction signed by anyone but the pool's authority is refused as
/// unauthorized, whatever entry and amount it names.
pub proof fn lemma_deduct_needs_authority(
    ctx: Deduct,
    info: StakerInfo,
    pool: StakingPool,
    amount: u64,
)
    requires
        ctx.admin != pool.authority,
    ensures
        deduct_refusal(ctx, info, pool, amount) == Some(ErrorCode::Unauthorized),
{
}

/// A withdrawal signed by anyone but the entry's own staker is refused as
/// unauthorized, whatever the amount.
pub proof fn lemma_unstake_needs_owner(
    ctx: Unstake,
    info: StakerInfo,
    pool: StakingPool,
    amount: u64,
)
    requires
        ctx.staker != info.staker,
    ensures
        unstake_refusal(ctx, info, pool, amount) == Some(ErrorCode::Unauthorized),
{
}

/// A deduction that passes the checks on signer and accounts and asks for
/// more than the staker holds is refused for want of balance.
pub proof fn lemma_deduct_overdraw_refused(
    ctx: Deduct,
    info: StakerInfo,
    pool: StakingPool,
    amount: u64,
)
    requires
        ctx.admits(&pool),
        ctx.names(&info),
        amount > info.staked_amount,
    ensures
        deduct_refusal(ctx, info, pool, amount) == Some(ErrorCode::InsufficientStakedAmount),
{
}

/// A withdrawal that passes the checks on signer and accounts and asks for
/// more than the staker holds is refused for want of balance.
pub proof fn lemma_unstake_overdraw_refused(
    ctx: Unstake,
    info: StakerInfo,
    pool: StakingPool,
    amount: u64,
)
    requires
        ctx.admits(&pool),
        ctx.names(&info),
        amount > info.staked_amount,
    ensures
        unstake_refusal(ctx, info, pool, amount) == Some(ErrorCode::InsufficientStakedAmount),
{
}

/// A stake that passes the checks on signer and accounts and would take the
/// staker's balance or the pool's total past the largest amount is refused
/// as an overflow.
pub proof fn lemma_stake_overflow_refused(
    ctx: Stake,
    info: StakerInfo,
    pool: StakingPool,
    amount: u64,
)
    requires
        ctx.admits(&pool),
        ctx.names(&info),
        info.staked_amount + amount > u64::MAX || pool.total_staked + amount > u64::MAX,
    ensures
        stake_refusal(ctx, info, pool, amount) == Some(ErrorCode::ArithmeticOverflow),
{
}

/// What a deduction or a withdrawal leaves is never below zero, and entry
/// and pool lose the same amount.
pub proof fn lemma_debit_is_even(info: StakerInfo, pool: StakingPool, amount: u64)
    requires
        amount <= info.staked_amount,
        amount <= pool.total_staked,
    ensures
        info.debited(amount).staked_amount == info.staked_amount - amount >= 0,
        pool.debited(amount).total_staked == pool.total_staked - amount >= 0,
        pool.total_staked - pool.debited(amount).total_staked == info.staked_amount
            - info.debited(amount).staked_amount,
{
}

/// What a stake leaves: entry and pool gain the same amount.
pub proof fn lemma_credit_is_even(info: StakerInfo, pool: StakingPool, amount: u64, now: i64)
    requires
        info.staked_amount + amount <= u64::MAX,
        pool.total_staked + amount <= u64::MAX,
    ensures
        info.credited(amount, now).staked_amount == info.staked_amount + amount,
        pool.credited(amount).total_staked == pool.total_staked + amount,
        pool.credited(amount).total_staked - pool.total_staked == info.credited(
            amount,
            now,
        ).staked_amount - info.staked_amount,
{
}

impl Records {
    /// On any records, a deduction on an open pool signed by anyone but the
    /// pool's authority is refused as unauthorized, whether or not the
    /// staker named has an entry.
    pub proof fn lemma_deduct_needs_authority(self, ctx: Deduct, amount: u64)
        requires
            self.pool(ctx.staking_pool) matches Some(pool) && ctx.admin != pool.authority,
        ensures
            self.deduct_refusal(ctx, amount) == Some(ErrorCode::Unauthorized),
    {
    }

    /// On any records, an operation on a pool that was never opened finds
    /// no record, whoever signs and whatever else is named.
    pub proof fn lemma_needs_pool(self, stake: Stake, deduct: Deduct, unstake: Unstake, amount: u64)
        ensures
            self.pool(stake.staking_pool) is None ==> self.stake_refusal(stake, amount) == Some(
                ErrorCode::RecordNotFound,
            ),
            self.pool(deduct.staking_pool) is None ==> self.deduct_refusal(deduct, amount)
                == Some(ErrorCode::RecordNotFound),
            self.pool(unstake.staking_pool) is None ==> self.unstake_refusal(unstake, amount)
                == Some(ErrorCode::RecordNotFound),
    {
    }

    /// On any records, a withdrawal by a signer who has no entry in the pool
    /// named finds no record, whatever the amount and whatever vault, token
    /// or destination is named with it.
    pub proof fn lemma_unstake_needs_entry(self, ctx: Unstake, amount: u64)
        requires
            self.pool(ctx.staking_pool) is Some,
            self.entry(ctx.staker, ctx.staking_pool) is None,
        ensures
            self.unstake_refusal(ctx, amount) == Some(ErrorCode::RecordNotFound),
    {
    }

    /// On any records, a deduction signed by the pool's authority from a
    /// staker who has no entry in the pool finds no record, whatever the
    /// amount and whatever vault, token or destination is named with it.
    pub proof fn lemma_deduct_needs_entry(self, ctx: Deduct, amount: u64)
        requires
            self.pool(ctx.staking_pool) matches Some(pool) && ctx.admin == pool.authority,
            self.entry(ctx.staker, ctx.staking_pool) is None,
        ensures
            self.deduct_refusal(ctx, amount) == Some(ErrorCode::RecordNotFound),
    {
    }

    /// On well-formed records, a deduction that passes the checks on signer
    /// and accounts and asks for more than the staker holds is refused for
    /// want of balance.
    pub proof fn lemma_deduct_overdraw_refused(self, ctx: Deduct, amount: u64)
        requires
            self.wf(),
            self.pool(ctx.staking_pool) matches Some(pool) && ctx.admits(&pool),
            self.entry(ctx.staker, ctx.staking_pool) matches Some(info) && amount
                > info.staked_amount,
        ensures
            self.deduct_refusal(ctx, amount) == Some(ErrorCode::InsufficientStakedAmount),
    {
        self.lemma_unique();
        let i = self.entry_index(ctx.staker, ctx.staking_pool).unwrap();
        assert(self.is_entry_at(i, ctx.staker, ctx.staking_pool));
    }

    /// On well-formed records, a withdrawal that passes the checks on the
    /// accounts and asks for more than the signer holds is refused for want
    /// of balance.
    pub proof fn lemma_unstake_overdraw_refused(self, ctx: Unstake, amount: u64)
        requires
            self.wf(),
            self.pool(ctx.staking_pool) matches Some(pool) && ctx.admits(&pool),
            self.entry(ctx.staker, ctx.staking_pool) matches Some(info) && amount
                > info.staked_amount,
        ensures
            self.unstake_refusal(ctx, amount) == Some(ErrorCode::InsufficientStakedAmount),
    {
        self.lemma_unique();
        let i = self.entry_index(ctx.staker, ctx.staking_pool).unwrap();
        assert(self.is_entry_at(i, ctx.staker, ctx.staking_pool));
    }

    /// On well-formed records no deduction and no withdrawal is refused as
    /// an underflow: a pool holds at least what each of its stakers holds.
    pub proof fn lemma_no_underflow(self, deduct: Deduct, unstake: Unstake, amount: u64)
        requires
            self.wf(),
        ensures
            self.deduct_refusal(deduct, amount) != Some(ErrorCode::ArithmeticUnderflow),
            self.unstake_refusal(unstake, amount) != Some(ErrorCode::ArithmeticUnderflow),
    {
        if self.pool(deduct.staking_pool) is Some && self.entry(
            deduct.staker,
            deduct.staking_pool,
        ) is Some {
            self.lemma_entry_within_total(deduct.staker, deduct.staking_pool);
        }
        if self.pool(unstake.staking_pool) is Some && self.entry(
            unstake.staker,
            unstake.staking_pool,
        ) is Some {
            self.lemma_entry_within_total(unstake.staker, unstake.staking_pool);
        }
    }

    /// On well-formed records, a stake on an open pool that passes the
    /// checks on signer and accounts and would take the staker's balance or
    /// the pool's total past the largest amount is refused as an overflow.
    pub proof fn lemma_stake_overflow_refused(self, ctx: Stake, amount: u64)
        requires
            self.wf(),
            self.pool(ctx.staking_pool) matches Some(pool) && ctx.admits(&pool) && (
            self.entry_or_blank(ctx.staker, ctx.staking_pool).staked_amount + amount > u64::MAX
                || pool.total_staked + amount > u64::MAX),
        ensures
            self.stake_refusal(ctx, amount) == Some(ErrorCode::ArithmeticOverflow),
    {
        self.lemma_unique();
        if self.entry_index(ctx.staker, ctx.staking_pool) is Some {
            let i = self.entry_index(ctx.staker, ctx.staking_pool).unwrap();
            assert(self.is_entry_at(i, ctx.staker, ctx.staking_pool));
        }
    }

    /// A stake that is kept adds the amount to the signer's entry in the
    /// pool named, a blank entry if there was none, sets its time, adds the
    /// amount to that pool's total, and touches nothing else.
    pub proof fn lemma_after_stake(self, ctx: Stake, amount: u64, now: i64)
        requires
            self.wf(),
            self.stake_refusal(ctx, amount) is None,
        ensures
            self.after_stake(ctx, amount, now).entry(ctx.staker, ctx.staking_pool) == Some(
                self.entry_or_blank(ctx.staker, ctx.staking_pool).credited(amount, now),
            ),
            self.after_stake(ctx, amount, now).pool(ctx.staking_pool) == Some(
                self.pool(ctx.staking_pool).unwrap().credited(amount),
            ),
            forall|staker: Pubkey, address: Pubkey|
                !(staker == ctx.staker && address == ctx.staking_pool)
                    ==> #[trigger] self.after_stake(ctx, amount, now).entry(staker, address)
                    == self.entry(staker, address),
            forall|address: Pubkey|
                address != ctx.staking_pool ==> #[trigger] self.after_stake(
                    ctx,
                    amount,
                    now,
                ).pool(address) == self.pool(address),
            self.after_stake(ctx, amount, now).tokens == self.tokens,
    {
        self.lemma_unique();
        if self.entry_index(ctx.staker, ctx.staking_pool) is Some {
            let i = self.entry_index(ctx.staker, ctx.staking_pool).unwrap();
            assert(self.is_entry_at(i, ctx.staker, ctx.staking_pool));
        }
        self.lemma_with_balance_lookups(
            self.entry_or_blank(ctx.staker, ctx.staking_pool).credited(amount, now),
            self.pool(ctx.staking_pool).unwrap().credited(amount),
        );
    }

    /// A deduction that is kept takes the amount from the entry of the
    /// staker named and from the pool's total, and touches nothing else.
    pub proof fn lemma_after_deduct(self, ctx: Deduct, amount: u64)
        requires
            self.wf(),
            self.deduct_refusal(ctx, amount) is None,
        ensures
            self.after_deduct(ctx, amount).entry(ctx.staker, ctx.staking_pool) == Some(
                self.entry(ctx.staker, ctx.staking_pool).unwrap().debited(amount),
            ),
            self.after_deduct(ctx, amount).pool(ctx.staking_pool) == Some(
                self.pool(ctx.staking_pool).unwrap().debited(amount),
            ),
            forall|staker: Pubkey, address: Pubkey|
                !(staker == ctx.staker && address == ctx.staking_pool)
                    ==> #[trigger] self.after_deduct(ctx, amount).entry(staker, address)
                    == self.entry(staker, address),
            forall|address: Pubkey|
                address != ctx.staking_pool ==> #[trigger] self.after_deduct(ctx, amount).pool(
                    address,
                ) == self.pool(address),
            self.after_deduct(ctx, amount).tokens == self.tokens,
    {
        self.lemma_unique();
        let i = self.entry_index(ctx.staker, ctx.staking_pool).unwrap();
        assert(self.is_entry_at(i, ctx.staker, ctx.staking_pool));
        self.lemma_with_balance_lookups(
            self.entry(ctx.staker, ctx.staking_pool).unwrap().debited(amount),
            self.pool(ctx.staking_pool).unwrap().debited(amount),
        );
    }

    /// A withdrawal that is kept takes the amount from the signer's own
    /// entry and from the pool's total, and touches nothing else: no signer
    /// reaches the entry of another staker.
    pub proof fn lemma_after_unstake(self, ctx: Unstake, amount: u64)
        requires
            self.wf(),
            self.unstake_refusal(ctx, amount) is None,
        ensures
            self.after_unstake(ctx, amount).entry(ctx.staker, ctx.staking_pool) == Some(
                self.entry(ctx.staker, ctx.staking_pool).unwrap().debited(amount),
            ),
            self.after_unstake(ctx, amount).pool(ctx.staking_pool) == Some(
                self.pool(ctx.staking_pool).unwrap().debited(amount),
            ),
            forall|staker: Pubkey, address: Pubkey|
                !(staker == ctx.staker && address == ctx.staking_pool)
                    ==> #[trigger] self.after_unstake(ctx, amount).entry(staker, address)
                    == self.entry(staker, address),
            forall|address: Pubkey|
                address != ctx.staking_pool ==> #[trigger] self.after_unstake(ctx, amount).pool(
                    address,
                ) == self.pool(address),
            self.after_unstake(ctx, amount).tokens == self.tokens,
    {
        self.lemma_unique();
        let i = self.entry_index(ctx.staker, ctx.staking_pool).unwrap();
        assert(self.is_entry_at(i, ctx.staker, ctx.staking_pool));
        self.lemma_with_balance_lookups(
            self.entry(ctx.staker, ctx.staking_pool).unwrap().debited(amount),
            self.pool(ctx.staking_pool).unwrap().debited(amount),
        );
    }

    /// A token that is issued is found under its identity with what was
    /// asked for, and nothing else moves.
    pub proof fn lemma_after_issue_token(
        self,
        ctx: InitializeToken,
        name: Seq<char>,
        symbol: Seq<char>,
        decimals: u8,
        total_supply: u64,
    )
        requires
            self.wf(),
            self.issue_token_refusal(ctx, name, symbol) is None,
        ensures
            self.after_issue_token(ctx, name, symbol, decimals, total_supply).token(ctx.mint)
                == Some(
                TokenInfoView { name, symbol, decimals, total_supply, authority: ctx.authority },
            ),
            forall|other: Pubkey|
                other != ctx.mint ==> #[trigger] self.after_issue_token(
                    ctx,
                    name,
                    symbol,
                    decimals,
                    total_supply,
                ).token(other) == self.token(other),
            self.after_issue_token(ctx, name, symbol, decimals, total_supply).pools
                == self.pools,
            self.after_issue_token(ctx, name, symbol, decimals, total_supply).entries
                == self.entries,
    {
        self.lemma_with_token_lookups(
            ctx.mint,
            TokenInfoView { name, symbol, decimals, total_supply, authority: ctx.authority },
        );
    }

    /// A pool that is opened is found under its address and under its
    /// token, with nothing staked, and nothing else moves. The token has no
    /// other pool, before or after.
    pub proof fn lemma_after_init_pool(self, ctx: InitializeStakingPool, reward_rate: u64)
        requires
            self.wf(),
            self.init_pool_refusal(ctx) is None,
        ensures
            self.after_init_pool(ctx, reward_rate).pool(ctx.staking_pool) == Some(
                ctx.pool(reward_rate),
            ),
            self.after_init_pool(ctx, reward_rate).pool_of(ctx.token_mint) == Some(
                ctx.staking_pool,
            ),
            forall|other: Pubkey|
                other != ctx.staking_pool ==> #[trigger] self.after_init_pool(
                    ctx,
                    reward_rate,
                ).pool(other) == self.pool(other),
            forall|other: Pubkey|
                other != ctx.token_mint ==> #[trigger] self.after_init_pool(
                    ctx,
                    reward_rate,
                ).pool_of(other) == self.pool_of(other),
            self.after_init_pool(ctx, reward_rate).tokens == self.tokens,
            self.after_init_pool(ctx, reward_rate).entries == self.entries,
    {
        self.lemma_with_pool_lookups(ctx.staking_pool, ctx.pool(reward_rate));
    }
}

} // verus!
