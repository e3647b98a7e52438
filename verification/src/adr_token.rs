//! The five operations, on the records that a caller has loaded. Each one
//! checks signer, accounts and amounts, changes the records it was given and
//! hands out the fund movement that has to go with the change. The caller
//! carries the movement out and keeps the changed records only if it went
//! through.

use crate::accounts::{Deduct, InitializeStakingPool, InitializeToken, Stake, Unstake};
use crate::error::ErrorCode;
use crate::state::{
    byte_len, StakerInfo, StakingPool, TokenInfo, TokenInfoView, MAX_NAME_LEN, MAX_SYMBOL_LEN,
};
use crate::token::{Authority, MintTo, TokenAccount, Transfer};
use vstd::prelude::*;

verus! {

/// Why `initialize_token` refuses, if it does. The name is looked at first.
pub open spec fn initialize_token_refusal(name: Seq<char>, symbol: Seq<char>) -> Option<
    ErrorCode,
> {
    if byte_len(name) > MAX_NAME_LEN {
        Some(ErrorCode::NameTooLong)
    } else if byte_len(symbol) > MAX_SYMBOL_LEN {
        Some(ErrorCode::SymbolTooLong)
    } else {
        None
    }
}

/// Why `stake` refuses, if it does. A signer or an account that does not fit
/// comes first, then a balance or a total too large to hold.
pub open spec fn stake_refusal(ctx: Stake, info: StakerInfo, pool: StakingPool, amount: u64)
    -> Option<ErrorCode> {
    if !(ctx.admits(&pool) && ctx.names(&info)) {
        Some(ErrorCode::Unauthorized)
    } else if info.staked_amount + amount > u64::MAX || pool.total_staked + amount > u64::MAX {
        Some(ErrorCode::ArithmeticOverflow)
    } else {
        None
    }
}

/// Why `deduct` refuses, if it does. A signer or an account that does not
/// fit comes first, then a balance too small, then a total too small.
pub open spec fn deduct_refusal(ctx: Deduct, info: StakerInfo, pool: StakingPool, amount: u64)
    -> Option<ErrorCode> {
    if !(ctx.admits(&pool) && ctx.names(&info)) {
        Some(ErrorCode::Unauthorized)
    } else if info.staked_amount < amount {
        Some(ErrorCode::InsufficientStakedAmount)
    } else if pool.total_staked < amount {
        Some(ErrorCode::ArithmeticUnderflow)
    } else {
        None
    }
}

/// Why `unstake` refuses, if it does, in the order of `deduct_refusal`.
pub open spec fn unstake_refusal(ctx: Unstake, info: StakerInfo, pool: StakingPool, amount: u64)
    -> Option<ErrorCode> {
    if !(ctx.admits(&pool) && ctx.names(&info)) {
        Some(ErrorCode::Unauthorized)
    } else if info.staked_amount < amount {
        Some(ErrorCode::InsufficientStakedAmount)
    } else if pool.total_staked < amount {
        Some(ErrorCode::ArithmeticUnderflow)
    } else {
        None
    }
}

/// Issues a token: checks the lengths of name and symbol, writes the token's
/// record and asks for the whole supply to be minted into the authority's
/// account, with the authority as signer.
pub fn initialize_token(
    ctx: &InitializeToken,
    name: String,
    symbol: String,
    decimals: u8,
    total_supply: u64,
) -> (res: Result<(TokenInfo, MintTo), ErrorCode>)
    ensures
        match res {
            Ok((token_info, mint_to)) => {
                &&& initialize_token_refusal(name@, symbol@) is None
                &&& token_info@ == (TokenInfoView {
                    name: name@,
                    symbol: symbol@,
                    decimals,
                    total_supply,
                    authority: ctx.authority,
                })
                &&& mint_to == ctx.mint_to(total_supply)
            },
            Err(e) => initialize_token_refusal(name@, symbol@) == Some(e),
        },
{
    if name.as_str().as_bytes().len() > MAX_NAME_LEN {
        return Err(ErrorCode::NameTooLong);
    }
    if symbol.as_str().as_bytes().len() > MAX_SYMBOL_LEN {
        return Err(ErrorCode::SymbolTooLong);
    }
    let token_info = TokenInfo { name, symbol, decimals, total_supply, authority: ctx.authority };
    let mint_to = MintTo {
        mint: ctx.mint,
        to: ctx.token_account,
        authority: ctx.authority,
        amount: total_supply,
    };
    Ok((token_info, mint_to))
}

/// Opens the pool of a token, with nothing staked, and says which vault is
/// to be created with it: one that holds the pool's token and that the pool
/// itself controls. Nothing is refused here.
pub fn initialize_staking_pool(ctx: &InitializeStakingPool, reward_rate: u64) -> (res: Result<
    (StakingPool, TokenAccount),
    ErrorCode,
>)
    ensures
        res == Ok::<(StakingPool, TokenAccount), ErrorCode>((ctx.pool(reward_rate), ctx.vault())),
{
    let staking_pool = StakingPool {
        authority: ctx.authority,
        token_mint: ctx.token_mint,
        staking_vault: ctx.staking_vault,
        reward_rate,
        total_staked: 0,
    };
    let vault = TokenAccount {
        key: ctx.staking_vault,
        mint: ctx.token_mint,
        owner: ctx.staking_pool,
    };
    Ok((staking_pool, vault))
}

/// A holder stakes `amount` at time `now`. Entry and pool gain the same
/// amount, the entry takes `now` as its time, and the funds are to move from
/// the staker's account into the vault under the staker's signature. On a
/// refusal neither record changes.
pub fn stake(
    ctx: &Stake,
    staker_info: &mut StakerInfo,
    staking_pool: &mut StakingPool,
    amount: u64,
    now: i64,
) -> (res: Result<Transfer, ErrorCode>)
    ensures
        match res {
            Ok(transfer) => {
                &&& stake_refusal(*ctx, *old(staker_info), *old(staking_pool), amount) is None
                &&& *final(staker_info) == old(staker_info).credited(amount, now)
                &&& *final(staking_pool) == old(staking_pool).credited(amount)
                &&& transfer == ctx.transfer(amount)
            },
            Err(e) => {
                &&& stake_refusal(*ctx, *old(staker_info), *old(staking_pool), amount) == Some(e)
                &&& *final(staker_info) == *old(staker_info)
                &&& *final(staking_pool) == *old(staking_pool)
            },
        },
{
    if !(ctx.admits(staking_pool) && ctx.names(staker_info)) {
        return Err(ErrorCode::Unauthorized);
    }
    let staked = match staker_info.staked_amount.checked_add(amount) {
        Some(sum) => sum,
        None => { return Err(ErrorCode::ArithmeticOverflow); },
    };
    let total = match staking_pool.total_staked.checked_add(amount) {
        Some(sum) => sum,
        None => { return Err(ErrorCode::ArithmeticOverflow); },
    };
    staker_info.last_update_time = now;
    staker_info.staked_amount = staked;
    staking_pool.total_staked = total;
    Ok(
        Transfer {
            from: ctx.staker_token_account.key,
            to: ctx.staking_vault,
            authority: Authority::Holder(ctx.staker),
            amount,
        },
    )
}

/// The pool's authority takes `amount` from what a staker holds, without
/// asking the staker. Entry and pool lose the same amount, and the funds are
/// to leave the vault for the authority's account under the pool's own
/// signature. On a refusal neither record changes.
pub fn deduct(
    ctx: &Deduct,
    staker_info: &mut StakerInfo,
    staking_pool: &mut StakingPool,
    amount: u64,
) -> (res: Result<Transfer, ErrorCode>)
    ensures
        match res {
            Ok(transfer) => {
                &&& deduct_refusal(*ctx, *old(staker_info), *old(staking_pool), amount) is None
                &&& *final(staker_info) == old(staker_info).debited(amount)
                &&& *final(staking_pool) == old(staking_pool).debited(amount)
                &&& transfer == ctx.transfer(amount)
            },
            Err(e) => {
                &&& deduct_refusal(*ctx, *old(staker_info), *old(staking_pool), amount) == Some(e)
                &&& *final(staker_info) == *old(staker_info)
                &&& *final(staking_pool) == *old(staking_pool)
            },
        },
{
    if !(ctx.admits(staking_pool) && ctx.names(staker_info)) {
        return Err(ErrorCode::Unauthorized);
    }
    let staked = match staker_info.staked_amount.checked_sub(amount) {
        Some(left) => left,
        None => { return Err(ErrorCode::InsufficientStakedAmount); },
    };
    let total = match staking_pool.total_staked.checked_sub(amount) {
        Some(left) => left,
        None => { return Err(ErrorCode::ArithmeticUnderflow); },
    };
    staker_info.staked_amount = staked;
    staking_pool.total_staked = total;
    Ok(
        Transfer {
            from: ctx.staking_vault,
            to: ctx.admin_token_account.key,
            authority: Authority::Pool(ctx.staking_pool),
            amount,
        },
    )
}

/// A staker takes `amount` back. Entry and pool lose the same amount, and
/// the funds are to leave the vault for the staker's own account under the
/// pool's own signature. On a refusal neither record changes.
pub fn unstake(
    ctx: &Unstake,
    staker_info: &mut StakerInfo,
    staking_pool: &mut StakingPool,
    amount: u64,
) -> (res: Result<Transfer, ErrorCode>)
    ensures
        match res {
            Ok(transfer) => {
                &&& unstake_refusal(*ctx, *old(staker_info), *old(staking_pool), amount) is None
                &&& *final(staker_info) == old(staker_info).debited(amount)
                &&& *final(staking_pool) == old(staking_pool).debited(amount)
                &&& transfer == ctx.transfer(amount)
            },
            Err(e) => {
                &&& unstake_refusal(*ctx, *old(staker_info), *old(staking_pool), amount) == Some(e)
                &&& *final(staker_info) == *old(staker_info)
                &&& *final(staking_pool) == *old(staking_pool)
            },
        },
{
    if !(ctx.admits(staking_pool) && ctx.names(staker_info)) {
        return Err(ErrorCode::Unauthorized);
    }
    let staked = match staker_info.staked_amount.checked_sub(amount) {
        Some(left) => left,
        None => { return Err(ErrorCode::InsufficientStakedAmount); },
    };
    let total = match staking_pool.total_staked.checked_sub(amount) {
        Some(left) => left,
        None => { return Err(ErrorCode::ArithmeticUnderflow); },
    };
    staker_info.staked_amount = staked;
    staking_pool.total_staked = total;
    Ok(
        Transfer {
            from: ctx.staking_vault,
            to: ctx.staker_token_account.key,
            authority: Authority::Pool(ctx.staking_pool),
            amount,
        },
    )
}

} // verus!
