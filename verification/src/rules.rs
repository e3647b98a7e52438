//! What each operation does to the records of a ledger, and that no run
//! of operations breaks them.

use crate::accounts::{Deduct, InitializeStakingPool, InitializeToken, Stake, Unstake};
use crate::adr_token;
use crate::error::ErrorCode;
use crate::identity::Pubkey;
use crate::records::{lemma_sum_bounds, staked_sum, Records};
use crate::state::{StakerInfo, StakingPool, TokenInfoView};
use vstd::prelude::*;

verus! {

impl Records {
    /// Why a token cannot be issued, if it cannot: name or symbol too long,
    /// or the token is there already.
    pub open spec fn issue_token_refusal(
        self,
        ctx: InitializeToken,
        name: Seq<char>,
        symbol: Seq<char>,
    ) -> Option<ErrorCode> {
        match adr_token::initialize_token_refusal(name, symbol) {
            Some(e) => Some(e),
            None => if self.has_token(ctx.mint) {
                Some(ErrorCode::AlreadyExists)
            } else {
                None
            },
        }
    }

    /// The records once the token is issued.
    pub open spec fn after_issue_token(
        self,
        ctx: InitializeToken,
        name: Seq<char>,
        symbol: Seq<char>,
        decimals: u8,
        total_supply: u64,
    ) -> Records {
        self.with_token(
            ctx.mint,
            TokenInfoView { name, symbol, decimals, total_supply, authority: ctx.authority },
        )
    }

    /// Why a pool cannot be opened, if it cannot: its token was never
    /// issued, or the token has a pool already, or the address is taken.
    pub open spec fn init_pool_refusal(self, ctx: InitializeStakingPool) -> Option<ErrorCode> {
        if !self.has_token(ctx.token_mint) {
            Some(ErrorCode::RecordNotFound)
        } else if self.has_pool(ctx.staking_pool) || self.pool_of(ctx.token_mint) is Some {
            Some(ErrorCode::AlreadyExists)
        } else {
            None
        }
    }

    /// The records once the pool is opened.
    pub open spec fn after_init_pool(self, ctx: InitializeStakingPool, reward_rate: u64)
        -> Records {
        self.with_pool(ctx.staking_pool, ctx.pool(reward_rate))
    }

    /// Why a stake is refused, if it is: there is no such pool, or what
    /// `adr_token::stake_refusal` says of the pool and of the staker's
    /// entry, a blank one if the staker has none yet.
    pub open spec fn stake_refusal(self, ctx: Stake, amount: u64) -> Option<ErrorCode> {
        match self.pool(ctx.staking_pool) {
            None => Some(ErrorCode::RecordNotFound),
            Some(pool) => adr_token::stake_refusal(
                ctx,
                self.entry_or_blank(ctx.staker, ctx.staking_pool),
                pool,
                amount,
            ),
        }
    }

    /// The records once the stake is kept.
    pub open spec fn after_stake(self, ctx: Stake, amount: u64, now: i64) -> Records {
        self.with_balance(
            self.entry_or_blank(ctx.staker, ctx.staking_pool).credited(amount, now),
            self.pool(ctx.staking_pool).unwrap().credited(amount),
        )
    }

    /// Why a deduction is refused, if it is, in this order: there is no such
    /// pool; the signer is not the pool's authority; the staker named has
    /// no entry in the pool; or what `adr_token::deduct_refusal` says of
    /// entry and pool, accounts that do not fit included.
    pub open spec fn deduct_refusal(self, ctx: Deduct, amount: u64) -> Option<ErrorCode> {
        match self.pool(ctx.staking_pool) {
            None => Some(ErrorCode::RecordNotFound),
            Some(pool) => if ctx.admin != pool.authority {
                Some(ErrorCode::Unauthorized)
            } else {
                match self.entry(ctx.staker, ctx.staking_pool) {
                    None => Some(ErrorCode::RecordNotFound),
                    Some(info) => adr_token::deduct_refusal(ctx, info, pool, amount),
                }
            },
        }
    }

    /// The records once the deduction is kept.
    pub open spec fn after_deduct(self, ctx: Deduct, amount: u64) -> Records {
        self.with_balance(
            self.entry(ctx.staker, ctx.staking_pool).unwrap().debited(amount),
            self.pool(ctx.staking_pool).unwrap().debited(amount),
        )
    }

    /// Why a withdrawal is refused, if it is, in this order: there is no
    /// such pool; the signer has no entry in the pool; or what
    /// `adr_token::unstake_refusal` says of entry and pool, accounts that do
    /// not fit included.
    pub open spec fn unstake_refusal(self, ctx: Unstake, amount: u64) -> Option<ErrorCode> {
        match self.pool(ctx.staking_pool) {
            None => Some(ErrorCode::RecordNotFound),
            Some(pool) => match self.entry(ctx.staker, ctx.staking_pool) {
                None => Some(ErrorCode::RecordNotFound),
                Some(info) => adr_token::unstake_refusal(ctx, info, pool, amount),
            },
        }
    }

    /// The records once the withdrawal is kept.
    pub open spec fn after_unstake(self, ctx: Unstake, amount: u64) -> Records {
        self.with_balance(
            self.entry(ctx.staker, ctx.staking_pool).unwrap().debited(amount),
            self.pool(ctx.staking_pool).unwrap().debited(amount),
        )
    }

    /// In well-formed records the total of every pool is the sum of what its
    /// entries hold.
    pub proof fn lemma_total_is_sum(self, address: Pubkey)
        requires
            self.wf(),
            self.pool(address) is Some,
        ensures
            self.pool(address).unwrap().total_staked == staked_sum(self.entries, address),
    {
        let p = self.pool_index(address).unwrap();
        assert(self.is_pool_at(p, address));
        assert(self.pools[p].pool.total_staked == staked_sum(self.entries, self.pools[p].address));
    }

    /// In well-formed records no staker holds more than the pool's total.
    pub proof fn lemma_entry_within_total(self, staker: Pubkey, address: Pubkey)
        requires
            self.wf(),
            self.pool(address) is Some,
            self.entry(staker, address) is Some,
        ensures
            self.entry(staker, address).unwrap().staked_amount <= self.pool(
                address,
            ).unwrap().total_staked,
    {
        self.lemma_total_is_sum(address);
        let i = self.entry_index(staker, address).unwrap();
        assert(self.is_entry_at(i, staker, address));
        lemma_sum_bounds(self.entries, i, address);
    }

    /// Issuing a token that is not refused keeps the records well formed.
    pub proof fn lemma_issue_token_keeps_wf(
        self,
        ctx: InitializeToken,
        name: Seq<char>,
        symbol: Seq<char>,
        decimals: u8,
        total_supply: u64,
    )
        requires
            self.wf(),
            self.issue_token_refusal(ctx, name, symbol) is None,
        ensures
            self.after_issue_token(ctx, name, symbol, decimals, total_supply).wf(),
    {
        self.lemma_with_token_wf(
            ctx.mint,
            TokenInfoView { name, symbol, decimals, total_supply, authority: ctx.authority },
        );
    }

    /// Opening a pool that is not refused keeps the records well formed: the
    /// new pool's total, zero, is the sum of no entries.
    pub proof fn lemma_init_pool_keeps_wf(self, ctx: InitializeStakingPool, reward_rate: u64)
        requires
            self.wf(),
            self.init_pool_refusal(ctx) is None,
        ensures
            self.after_init_pool(ctx, reward_rate).wf(),
    {
        self.lemma_with_pool_wf(ctx.staking_pool, ctx.pool(reward_rate));
    }

    /// A stake that is not refused keeps the records well formed: the pool's
    /// total is still the sum of what its entries hold.
    pub proof fn lemma_stake_keeps_wf(self, ctx: Stake, amount: u64, now: i64)
        requires
            self.wf(),
            self.stake_refusal(ctx, amount) is None,
        ensures
            self.after_stake(ctx, amount, now).wf(),
    {
        self.lemma_with_balance_wf(
            self.entry_or_blank(ctx.staker, ctx.staking_pool).credited(amount, now),
            self.pool(ctx.staking_pool).unwrap().credited(amount),
        );
    }

    /// A deduction that is not refused keeps the records well formed: the
    /// pool's total is still the sum of what its entries hold.
    pub proof fn lemma_deduct_keeps_wf(self, ctx: Deduct, amount: u64)
        requires
            self.wf(),
            self.deduct_refusal(ctx, amount) is None,
        ensures
            self.after_deduct(ctx, amount).wf(),
    {
        self.lemma_with_balance_wf(
            self.entry(ctx.staker, ctx.staking_pool).unwrap().debited(amount),
            self.pool(ctx.staking_pool).unwrap().debited(amount),
        );
    }

    /// A withdrawal that is not refused keeps the records well formed: the
    /// pool's total is still the sum of what its entries hold.
    pub proof fn lemma_unstake_keeps_wf(self, ctx: Unstake, amount: u64)
        requires
            self.wf(),
            self.unstake_refusal(ctx, amount) is None,
        ensures
            self.after_unstake(ctx, amount).wf(),
    {
        self.lemma_with_balance_wf(
            self.entry(ctx.staker, ctx.staking_pool).unwrap().debited(amount),
            self.pool(ctx.staking_pool).unwrap().debited(amount),
        );
    }
}

/// One request to the ledger, with all that it names.
pub enum Operation {
    IssueToken {
        ctx: InitializeToken,
        name: Seq<char>,
        symbol: Seq<char>,
        decimals: u8,
        total_supply: u64,
    },
    InitPool { ctx: InitializeStakingPool, reward_rate: u64 },
    Stake { ctx: Stake, amount: u64, now: i64 },
    Deduct { ctx: Deduct, amount: u64 },
    Unstake { ctx: Unstake, amount: u64 },
}

impl Records {
    /// Why the request is refused, if it is.
    pub open spec fn refusal(self, op: Operation) -> Option<ErrorCode> {
        match op {
            Operation::IssueToken { ctx, name, symbol, .. } => self.issue_token_refusal(
                ctx,
                name,
                symbol,
            ),
            Operation::InitPool { ctx, .. } => self.init_pool_refusal(ctx),
            Operation::Stake { ctx, amount, .. } => self.stake_refusal(ctx, amount),
            Operation::Deduct { ctx, amount } => self.deduct_refusal(ctx, amount),
            Operation::Unstake { ctx, amount } => self.unstake_refusal(ctx, amount),
        }
    }

    /// The records after the request, if its fund movement is confirmed. A
    /// request that is refused leaves them as they are.
    pub open spec fn after(self, op: Operation) -> Records {
        if self.refusal(op) is Some {
            self
        } else {
            match op {
                Operation::IssueToken {
                    ctx,
                    name,
                    symbol,
                    decimals,
                    total_supply,
                } => self.after_issue_token(ctx, name, symbol, decimals, total_supply),
                Operation::InitPool { ctx, reward_rate } => self.after_init_pool(ctx, reward_rate),
                Operation::Stake { ctx, amount, now } => self.after_stake(ctx, amount, now),
                Operation::Deduct { ctx, amount } => self.after_deduct(ctx, amount),
                Operation::Unstake { ctx, amount } => self.after_unstake(ctx, amount),
            }
        }
    }

    /// The records after a run of requests, each confirmed if it is not
    /// refused, in the order given.
    pub open spec fn run(self, ops: Seq<Operation>) -> Records
        decreases ops.len(),
    {
        if ops.len() == 0 {
            self
        } else {
            self.run(ops.drop_last()).after(ops.last())
        }
    }

    /// Whatever is asked of well-formed records, and in whatever order, they
    /// stay well formed.
    pub proof fn lemma_run_keeps_wf(self, ops: Seq<Operation>)
        requires
            self.wf(),
        ensures
            self.run(ops).wf(),
        decreases ops.len(),
    {
        if ops.len() > 0 {
            self.lemma_run_keeps_wf(ops.drop_last());
            let before = self.run(ops.drop_last());
            if before.refusal(ops.last()) is None {
                match ops.last() {
                    Operation::IssueToken {
                        ctx,
                        name,
                        symbol,
                        decimals,
                        total_supply,
                    } => before.lemma_issue_token_keeps_wf(
                        ctx,
                        name,
                        symbol,
                        decimals,
                        total_supply,
                    ),
                    Operation::InitPool { ctx, reward_rate } => before.lemma_init_pool_keeps_wf(
                        ctx,
                        reward_rate,
                    ),
                    Operation::Stake { ctx, amount, now } => before.lemma_stake_keeps_wf(
                        ctx,
                        amount,
                        now,
                    ),
                    Operation::Deduct { ctx, amount } => before.lemma_deduct_keeps_wf(ctx, amount),
                    Operation::Unstake { ctx, amount } => before.lemma_unstake_keeps_wf(
                        ctx,
                        amount,
                    ),
                }
            }
        }
    }

    /// After any run of requests on a new ledger, the total of every pool
    /// is the sum of what its stakers' entries hold.
    pub proof fn lemma_total_is_sum_after_any_run(ops: Seq<Operation>, address: Pubkey)
        requires
            Records::empty().run(ops).pool(address) is Some,
        ensures
            Records::empty().run(ops).pool(address).unwrap().total_staked == staked_sum(
                Records::empty().run(ops).entries,
                address,
            ),
    {
        Records::empty().lemma_run_keeps_wf(ops);
        Records::empty().run(ops).lemma_total_is_sum(address);
    }
}

} // verus!
