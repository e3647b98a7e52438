//! What a caller names with each operation: who signs and which accounts
//! take part. The identities are taken as already authenticated; whether
//! they fit the records is decided here.

use crate::identity::Pubkey;
use crate::state::{StakerInfo, StakingPool};
use crate::token::{Authority, MintTo, TokenAccount, Transfer};
use vstd::prelude::*;

verus! {

/// The accounts named when a token is issued. `authority` signs.
#[derive(Clone, Copy, Debug, PartialEq, Eq)]
pub struct InitializeToken {
    /// The identity of the token to create.
    pub mint: Pubkey,
    /// The account of `authority` that receives the whole supply.
    pub token_account: Pubkey,
    pub authority: Pubkey,
}

impl InitializeToken {
    /// The issue of the whole supply into the authority's account.
    pub open spec fn mint_to(self, total_supply: u64) -> MintTo {
        MintTo {
            mint: self.mint,
            to: self.token_account,
            authority: self.authority,
            amount: total_supply,
        }
    }
}

/// The accounts named when a pool is opened. `authority` signs and becomes
/// the pool's authority.
#[derive(Clone, Copy, Debug, PartialEq, Eq)]
pub struct InitializeStakingPool {
    /// The address of the pool to create.
    pub staking_pool: Pubkey,
    pub token_mint: Pubkey,
    /// The address of the vault to create for the pool.
    pub staking_vault: Pubkey,
    pub authority: Pubkey,
}

impl InitializeStakingPool {
    /// The pool as it is created: nothing staked yet.
    pub open spec fn pool(self, reward_rate: u64) -> StakingPool {
        StakingPool {
            authority: self.authority,
            token_mint: self.token_mint,
            staking_vault: self.staking_vault,
            reward_rate,
            total_staked: 0,
        }
    }

    /// The vault as it is created: it holds the pool's token, and the pool
    /// itself controls it.
    pub open spec fn vault(self) -> TokenAccount {
        TokenAccount { key: self.staking_vault, mint: self.token_mint, owner: self.staking_pool }
    }
}

/// The accounts named when a holder stakes. `staker` signs.
#[derive(Clone, Copy, Debug, PartialEq, Eq)]
pub struct Stake {
    pub staker: Pubkey,
    pub staking_pool: Pubkey,
    /// Where the funds come from.
    pub staker_token_account: TokenAccount,
    pub staking_vault: Pubkey,
}

impl Stake {
    /// The accounts fit the pool: the vault is the pool's own, and the
    /// source holds the pool's token and belongs to the signer.
    pub open spec fn spec_admits(&self, pool: &StakingPool) -> bool {
        &&& self.staking_vault == pool.staking_vault
        &&& self.staker_token_account.mint == pool.token_mint
        &&& self.staker_token_account.owner == self.staker
    }

    /// The entry is that of the signer in the pool named.
    pub open spec fn spec_names(&self, info: &StakerInfo) -> bool {
        info.staker == self.staker && info.staking_pool == self.staking_pool
    }

    /// The movement of the stake into the vault, signed by the staker.
    pub open spec fn transfer(self, amount: u64) -> Transfer {
        Transfer {
            from: self.staker_token_account.key,
            to: self.staking_vault,
            authority: Authority::Holder(self.staker),
            amount,
        }
    }

    #[verifier::when_used_as_spec(spec_admits)]
    pub fn admits(&self, pool: &StakingPool) -> (ok: bool)
        ensures
            ok == self.spec_admits(pool),
    {
        self.staking_vault == pool.staking_vault && self.staker_token_account.mint
            == pool.token_mint && self.staker_token_account.owner == self.staker
    }

    #[verifier::when_used_as_spec(spec_names)]
    pub fn names(&self, info: &StakerInfo) -> (ok: bool)
        ensures
            ok == self.spec_names(info),
    {
        info.staker == self.staker && info.staking_pool == self.staking_pool
    }
}

/// The accounts named when the pool's authority takes from a staker.
/// `admin` signs; `staker` does not, and is not asked.
#[derive(Clone, Copy, Debug, PartialEq, Eq)]
pub struct Deduct {
    /// Whose entry is charged.
    pub staker: Pubkey,
    pub staking_pool: Pubkey,
    pub token_mint: Pubkey,
    pub staking_vault: Pubkey,
    /// Where the funds go.
    pub admin_token_account: TokenAccount,
    pub admin: Pubkey,
}

impl Deduct {
    /// The signer is the pool's authority and the accounts fit the pool:
    /// the token and the vault are the pool's own, and the destination
    /// holds that token and belongs to the signer.
    pub open spec fn spec_admits(&self, pool: &StakingPool) -> bool {
        &&& self.admin == pool.authority
        &&& self.token_mint == pool.token_mint
        &&& self.staking_vault == pool.staking_vault
        &&& self.admin_token_account.mint == self.token_mint
        &&& self.admin_token_account.owner == self.admin
    }

    /// The entry is that of the staker and the pool named.
    pub open spec fn spec_names(&self, info: &StakerInfo) -> bool {
        info.staker == self.staker && info.staking_pool == self.staking_pool
    }

    /// The movement out of the vault to the authority, signed by the pool.
    pub open spec fn transfer(self, amount: u64) -> Transfer {
        Transfer {
            from: self.staking_vault,
            to: self.admin_token_account.key,
            authority: Authority::Pool(self.staking_pool),
            amount,
        }
    }

    #[verifier::when_used_as_spec(spec_admits)]
    pub fn admits(&self, pool: &StakingPool) -> (ok: bool)
        ensures
            ok == self.spec_admits(pool),
    {
        self.admin == pool.authority && self.token_mint == pool.token_mint && self.staking_vault
            == pool.staking_vault && self.admin_token_account.mint == self.token_mint
            && self.admin_token_account.owner == self.admin
    }

    #[verifier::when_used_as_spec(spec_names)]
    pub fn names(&self, info: &StakerInfo) -> (ok: bool)
        ensures
            ok == self.spec_names(info),
    {
        info.staker == self.staker && info.staking_pool == self.staking_pool
    }
}

/// The accounts named when a staker withdraws. `staker` signs.
#[derive(Clone, Copy, Debug, PartialEq, Eq)]
pub struct Unstake {
    pub staker: Pubkey,
    pub staking_pool: Pubkey,
    pub token_mint: Pubkey,
    pub staking_vault: Pubkey,
    /// Where the funds go.
    pub staker_token_account: TokenAccount,
}

impl Unstake {
    /// The accounts fit the pool: the token and the vault are the pool's
    /// own, and the destination holds that token and belongs to the signer.
    pub open spec fn spec_admits(&self, pool: &StakingPool) -> bool {
        &&& self.token_mint == pool.token_mint
        &&& self.staking_vault == pool.staking_vault
        &&& self.staker_token_account.mint == self.token_mint
        &&& self.staker_token_account.owner == self.staker
    }

    /// The entry is that of the signer in the pool named.
    pub open spec fn spec_names(&self, info: &StakerInfo) -> bool {
        info.staker == self.staker && info.staking_pool == self.staking_pool
    }

    /// The movement out of the vault back to the staker, signed by the pool.
    pub open spec fn transfer(self, amount: u64) -> Transfer {
        Transfer {
            from: self.staking_vault,
            to: self.staker_token_account.key,
            authority: Authority::Pool(self.staking_pool),
            amount,
        }
    }

    #[verifier::when_used_as_spec(spec_admits)]
    pub fn admits(&self, pool: &StakingPool) -> (ok: bool)
        ensures
            ok == self.spec_admits(pool),
    {
        self.token_mint == pool.token_mint && self.staking_vault == pool.staking_vault
            && self.staker_token_account.mint == self.token_mint
            && self.staker_token_account.owner == self.staker
    }

    #[verifier::when_used_as_spec(spec_names)]
    pub fn names(&self, info: &StakerInfo) -> (ok: bool)
        ensures
            ok == self.spec_names(info),
    {
        info.staker == self.staker && info.staking_pool == self.staking_pool
    }
}

} // verus!
