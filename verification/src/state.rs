//! The records: tokens, pools and stakers' entries.

use crate::identity::Pubkey;
use vstd::prelude::*;
use vstd::utf8::encode_utf8;

verus! {

/// Most bytes a token name may take.
pub const MAX_NAME_LEN: usize = 32;

/// Most bytes a token symbol may take.
pub const MAX_SYMBOL_LEN: usize = 8;

/// How many bytes a text takes once encoded as UTF-8.
pub open spec fn byte_len(text: Seq<char>) -> nat {
    encode_utf8(text).len()
}

/// A token as it was issued: written once, never changed.
#[derive(Clone, Debug, PartialEq, Eq)]
pub struct TokenInfo {
    pub name: String,
    pub symbol: String,
    pub decimals: u8,
    pub total_supply: u64,
    pub authority: Pubkey,
}

/// What a `TokenInfo` holds, as plain values.
pub struct TokenInfoView {
    pub name: Seq<char>,
    pub symbol: Seq<char>,
    pub decimals: u8,
    pub total_supply: u64,
    pub authority: Pubkey,
}

impl View for TokenInfo {
    type V = TokenInfoView;

    open spec fn view(&self) -> TokenInfoView {
        TokenInfoView {
            name: self.name@,
            symbol: self.symbol@,
            decimals: self.decimals,
            total_supply: self.total_supply,
            authority: self.authority,
        }
    }
}

/// A staking pool: one per token. `total_staked` is what all of its stakers
/// hold together; `reward_rate` is kept and never used.
#[derive(Clone, Copy, Debug, PartialEq, Eq)]
pub struct StakingPool {
    pub authority: Pubkey,
    pub token_mint: Pubkey,
    pub staking_vault: Pubkey,
    pub reward_rate: u64,
    pub total_staked: u64,
}

impl StakingPool {
    /// The pool once `amount` more is staked in it.
    pub open spec fn credited(self, amount: u64) -> StakingPool {
        StakingPool { total_staked: (self.total_staked + amount) as u64, ..self }
    }

    /// The pool once `amount` has left it.
    pub open spec fn debited(self, amount: u64) -> StakingPool {
        StakingPool { total_staked: (self.total_staked - amount) as u64, ..self }
    }
}

/// What one staker holds in one pool.
#[derive(Clone, Copy, Debug, PartialEq, Eq)]
pub struct StakerInfo {
    pub staker: Pubkey,
    pub staking_pool: Pubkey,
    pub staked_amount: u64,
    pub last_update_time: i64,
}

impl StakerInfo {
    /// The entry of a staker who has not staked yet.
    pub open spec fn blank(staker: Pubkey, staking_pool: Pubkey) -> StakerInfo {
        StakerInfo { staker, staking_pool, staked_amount: 0, last_update_time: 0 }
    }

    /// The entry once `amount` more is staked at time `now`.
    pub open spec fn credited(self, amount: u64, now: i64) -> StakerInfo {
        StakerInfo {
            staked_amount: (self.staked_amount + amount) as u64,
            last_update_time: now,
            ..self
        }
    }

    /// The entry once `amount` has been taken from it.
    pub open spec fn debited(self, amount: u64) -> StakerInfo {
        StakerInfo { staked_amount: (self.staked_amount - amount) as u64, ..self }
    }

    /// Opens the entry of `staker` in `staking_pool`, with nothing staked.
    pub fn new(staker: Pubkey, staking_pool: Pubkey) -> (info: StakerInfo)
        ensures
            info == StakerInfo::blank(staker, staking_pool),
    {
        StakerInfo { staker, staking_pool, staked_amount: 0, last_update_time: 0 }
    }
}

} // verus!
