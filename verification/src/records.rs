//! What a ledger keeps, as plain sequences, and when it is well formed.

use crate::identity::Pubkey;
use crate::state::{StakerInfo, StakingPool, TokenInfoView};
use vstd::prelude::*;

verus! {

/// A token's record under the identity of the token.
pub struct TokenRecord {
    pub mint: Pubkey,
    pub info: TokenInfoView,
}

/// A pool's record under the address of the pool.
#[derive(Clone, Copy, Debug, PartialEq, Eq)]
pub struct PoolRecord {
    pub address: Pubkey,
    pub pool: StakingPool,
}

/// Everything a ledger keeps: the tokens issued, the pools opened and the
/// stakers' entries, each in the order in which it was created.
pub struct Records {
    pub tokens: Seq<TokenRecord>,
    pub pools: Seq<PoolRecord>,
    pub entries: Seq<StakerInfo>,
}

/// What an entry counts for in the pool `pool`: its amount if it belongs to
/// that pool, nothing otherwise.
pub open spec fn share(entry: StakerInfo, pool: Pubkey) -> int {
    if entry.staking_pool == pool {
        entry.staked_amount as int
    } else {
        0
    }
}

/// What the entries of the pool `pool` hold together.
pub open spec fn staked_sum(entries: Seq<StakerInfo>, pool: Pubkey) -> int
    decreases entries.len(),
{
    if entries.len() == 0 {
        0
    } else {
        staked_sum(entries.drop_last(), pool) + share(entries.last(), pool)
    }
}

impl Records {
    /// No token, no pool, no entry.
    pub open spec fn empty() -> Records {
        Records { tokens: Seq::empty(), pools: Seq::empty(), entries: Seq::empty() }
    }

    pub open spec fn is_token_at(self, i: int, mint: Pubkey) -> bool {
        0 <= i < self.tokens.len() && self.tokens[i].mint == mint
    }

    pub open spec fn is_pool_at(self, i: int, address: Pubkey) -> bool {
        0 <= i < self.pools.len() && self.pools[i].address == address
    }

    pub open spec fn is_pool_of_at(self, i: int, mint: Pubkey) -> bool {
        0 <= i < self.pools.len() && self.pools[i].pool.token_mint == mint
    }

    pub open spec fn is_entry_at(self, i: int, staker: Pubkey, pool: Pubkey) -> bool {
        0 <= i < self.entries.len() && self.entries[i].staker == staker
            && self.entries[i].staking_pool == pool
    }

    /// The token `mint` was issued.
    pub open spec fn has_token(self, mint: Pubkey) -> bool {
        exists|i: int| self.is_token_at(i, mint)
    }

    /// A pool was opened at `address`.
    pub open spec fn has_pool(self, address: Pubkey) -> bool {
        exists|i: int| self.is_pool_at(i, address)
    }

    /// Where the token `mint` is recorded, if it was issued.
    pub open spec fn token_index(self, mint: Pubkey) -> Option<int> {
        if exists|i: int| self.is_token_at(i, mint) {
            Some(choose|i: int| self.is_token_at(i, mint))
        } else {
            None
        }
    }

    /// Where the pool at `address` is recorded, if it was opened.
    pub open spec fn pool_index(self, address: Pubkey) -> Option<int> {
        if exists|i: int| self.is_pool_at(i, address) {
            Some(choose|i: int| self.is_pool_at(i, address))
        } else {
            None
        }
    }

    /// Where the pool of the token `mint` is recorded, if it was opened.
    pub open spec fn pool_of_index(self, mint: Pubkey) -> Option<int> {
        if exists|i: int| self.is_pool_of_at(i, mint) {
            Some(choose|i: int| self.is_pool_of_at(i, mint))
        } else {
            None
        }
    }

    /// Where the entry of `staker` in `pool` is recorded, if it was created.
    pub open spec fn entry_index(self, staker: Pubkey, pool: Pubkey) -> Option<int> {
        if exists|i: int| self.is_entry_at(i, staker, pool) {
            Some(choose|i: int| self.is_entry_at(i, staker, pool))
        } else {
            None
        }
    }

    /// The token `mint`, if it was issued.
    pub open spec fn token(self, mint: Pubkey) -> Option<TokenInfoView> {
        match self.token_index(mint) {
            Some(i) => Some(self.tokens[i].info),
            None => None,
        }
    }

    /// The pool at `address`, if it was opened.
    pub open spec fn pool(self, address: Pubkey) -> Option<StakingPool> {
        match self.pool_index(address) {
            Some(i) => Some(self.pools[i].pool),
            None => None,
        }
    }

    /// The address of the pool of the token `mint`, if it was opened.
    pub open spec fn pool_of(self, mint: Pubkey) -> Option<Pubkey> {
        match self.pool_of_index(mint) {
            Some(i) => Some(self.pools[i].address),
            None => None,
        }
    }

    /// The entry of `staker` in `pool`, if it was created.
    pub open spec fn entry(self, staker: Pubkey, pool: Pubkey) -> Option<StakerInfo> {
        match self.entry_index(staker, pool) {
            Some(i) => Some(self.entries[i]),
            None => None,
        }
    }

    /// The entry of `staker` in `pool`, or the blank one it starts from.
    pub open spec fn entry_or_blank(self, staker: Pubkey, pool: Pubkey) -> StakerInfo {
        match self.entry(staker, pool) {
            Some(info) => info,
            None => StakerInfo::blank(staker, pool),
        }
    }

    /// Every record is kept once under its key: no token twice, no two
    /// pools at one address or for one token, no two entries of one staker
    /// in one pool.
    pub open spec fn unique(self) -> bool {
        &&& forall|i: int, j: int|
            0 <= i < j < self.tokens.len() ==> self.tokens[i].mint != self.tokens[j].mint
        &&& forall|i: int, j: int|
            0 <= i < j < self.pools.len() ==> self.pools[i].address != self.pools[j].address
        &&& forall|i: int, j: int|
            0 <= i < j < self.pools.len() ==> self.pools[i].pool.token_mint
                != self.pools[j].pool.token_mint
        &&& forall|i: int, j: int|
            0 <= i < j < self.entries.len() ==> !(self.entries[i].staker == self.entries[j].staker
                && self.entries[i].staking_pool == self.entries[j].staking_pool)
    }

    /// Every record is kept once under its key, every pool is the pool of an
    /// issued token, every entry belongs to an open pool, and each pool's
    /// total is what its entries hold together.
    pub open spec fn wf(self) -> bool {
        &&& self.unique()
        &&& forall|i: int|
            0 <= i < self.pools.len() ==> self.has_token(
                (#[trigger] self.pools[i]).pool.token_mint,
            )
        &&& forall|i: int|
            0 <= i < self.entries.len() ==> self.has_pool(
                (#[trigger] self.entries[i]).staking_pool,
            )
        &&& forall|i: int|
            0 <= i < self.pools.len() ==> (#[trigger] self.pools[i]).pool.total_staked
                == staked_sum(self.entries, self.pools[i].address)
    }

    /// The records with one more token.
    pub open spec fn with_token(self, mint: Pubkey, info: TokenInfoView) -> Records {
        Records { tokens: self.tokens.push(TokenRecord { mint, info }), ..self }
    }

    /// The records with one more pool.
    pub open spec fn with_pool(self, address: Pubkey, pool: StakingPool) -> Records {
        Records { pools: self.pools.push(PoolRecord { address, pool }), ..self }
    }

    /// The records with `info` in place of the entry it names, or added if
    /// there was none, and with `pool` in place of the pool of that entry.
    pub open spec fn with_balance(self, info: StakerInfo, pool: StakingPool) -> Records {
        Records {
            pools: match self.pool_index(info.staking_pool) {
                Some(p) => self.pools.update(p, PoolRecord { address: info.staking_pool, pool }),
                None => self.pools,
            },
            entries: match self.entry_index(info.staker, info.staking_pool) {
                Some(i) => self.entries.update(i, info),
                None => self.entries.push(info),
            },
            ..self
        }
    }
}

/// Adding an entry adds its share to every pool's sum.
pub proof fn lemma_sum_push(entries: Seq<StakerInfo>, entry: StakerInfo, pool: Pubkey)
    ensures
        staked_sum(entries.push(entry), pool) == staked_sum(entries, pool) + share(entry, pool),
{
    assert(entries.push(entry).drop_last() =~= entries);
}

/// Replacing an entry takes its old share out of every pool's sum and puts
/// the new one in.
pub proof fn lemma_sum_update(entries: Seq<StakerInfo>, i: int, entry: StakerInfo, pool: Pubkey)
    requires
        0 <= i < entries.len(),
    ensures
        staked_sum(entries.update(i, entry), pool) == staked_sum(entries, pool) - share(
            entries[i],
            pool,
        ) + share(entry, pool),
    decreases entries.len(),
{
    let updated = entries.update(i, entry);
    if i == entries.len() - 1 {
        assert(updated.drop_last() =~= entries.drop_last());
    } else {
        assert(updated.drop_last() =~= entries.drop_last().update(i, entry));
        lemma_sum_update(entries.drop_last(), i, entry, pool);
    }
}

/// A pool that no entry belongs to holds nothing.
pub proof fn lemma_sum_of_strangers(entries: Seq<StakerInfo>, pool: Pubkey)
    requires
        forall|i: int| 0 <= i < entries.len() ==> entries[i].staking_pool != pool,
    ensures
        staked_sum(entries, pool) == 0,
    decreases entries.len(),
{
    if entries.len() > 0 {
        lemma_sum_of_strangers(entries.drop_last(), pool);
    }
}

/// No entry holds more than its pool's sum, and the sum is never negative.
pub proof fn lemma_sum_bounds(entries: Seq<StakerInfo>, i: int, pool: Pubkey)
    requires
        0 <= i < entries.len(),
    ensures
        0 <= share(entries[i], pool) <= staked_sum(entries, pool),
    decreases entries.len(),
{
    lemma_sum_nonnegative(entries.drop_last(), pool);
    if i < entries.len() - 1 {
        lemma_sum_bounds(entries.drop_last(), i, pool);
    }
}

/// The sum of a pool is never negative.
pub proof fn lemma_sum_nonnegative(entries: Seq<StakerInfo>, pool: Pubkey)
    ensures
        0 <= staked_sum(entries, pool),
    decreases entries.len(),
{
    if entries.len() > 0 {
        lemma_sum_nonnegative(entries.drop_last(), pool);
    }
}

impl Records {
    /// Where every record is kept once, a key is found at one place only.
    pub proof fn lemma_unique(self)
        requires
            self.unique(),
        ensures
            forall|i: int, mint: Pubkey| #[trigger]
                self.is_token_at(i, mint) ==> self.token_index(mint) == Some(i),
            forall|i: int, address: Pubkey| #[trigger]
                self.is_pool_at(i, address) ==> self.pool_index(address) == Some(i),
            forall|i: int, mint: Pubkey| #[trigger]
                self.is_pool_of_at(i, mint) ==> self.pool_of_index(mint) == Some(i),
            forall|i: int, staker: Pubkey, pool: Pubkey| #[trigger]
                self.is_entry_at(i, staker, pool) ==> self.entry_index(staker, pool) == Some(i),
    {
        assert forall|i: int, mint: Pubkey| #[trigger]
            self.is_token_at(i, mint) implies self.token_index(mint) == Some(i) by {
            let c = choose|c: int| self.is_token_at(c, mint);
            if c < i {
                assert(self.tokens[c].mint != self.tokens[i].mint);
            } else if i < c {
                assert(self.tokens[i].mint != self.tokens[c].mint);
            }
        }
        assert forall|i: int, address: Pubkey| #[trigger]
            self.is_pool_at(i, address) implies self.pool_index(address) == Some(i) by {
            let c = choose|c: int| self.is_pool_at(c, address);
            if c < i {
                assert(self.pools[c].address != self.pools[i].address);
            } else if i < c {
                assert(self.pools[i].address != self.pools[c].address);
            }
        }
        assert forall|i: int, mint: Pubkey| #[trigger]
            self.is_pool_of_at(i, mint) implies self.pool_of_index(mint) == Some(i) by {
            let c = choose|c: int| self.is_pool_of_at(c, mint);
            if c < i {
                assert(self.pools[c].pool.token_mint != self.pools[i].pool.token_mint);
            } else if i < c {
                assert(self.pools[i].pool.token_mint != self.pools[c].pool.token_mint);
            }
        }
        assert forall|i: int, staker: Pubkey, pool: Pubkey| #[trigger]
            self.is_entry_at(i, staker, pool) implies self.entry_index(staker, pool) == Some(
            i,
        ) by {
            let c = choose|c: int| self.is_entry_at(c, staker, pool);
            if c < i {
                assert(!(self.entries[c].staker == self.entries[i].staker
                    && self.entries[c].staking_pool == self.entries[i].staking_pool));
            } else if i < c {
                assert(!(self.entries[i].staker == self.entries[c].staker
                    && self.entries[i].staking_pool == self.entries[c].staking_pool));
            }
        }
    }

    /// A token that was not issued before can be added.
    pub proof fn lemma_with_token_wf(self, mint: Pubkey, info: TokenInfoView)
        requires
            self.wf(),
            self.token_index(mint) is None,
        ensures
            self.with_token(mint, info).wf(),
    {
        let next = self.with_token(mint, info);
        assert forall|i: int, j: int| 0 <= i < j < next.tokens.len() implies next.tokens[i].mint
            != next.tokens[j].mint by {
            if j == self.tokens.len() {
                assert(!self.is_token_at(i, mint));
            }
        }
        assert forall|i: int| 0 <= i < next.pools.len() implies next.has_token(
            (#[trigger] next.pools[i]).pool.token_mint,
        ) by {
            assert(self.has_token(self.pools[i].pool.token_mint));
            let t = choose|t: int| self.is_token_at(t, self.pools[i].pool.token_mint);
            assert(next.is_token_at(t, next.pools[i].pool.token_mint));
        }
        assert forall|i: int| 0 <= i < next.entries.len() implies next.has_pool(
            (#[trigger] next.entries[i]).staking_pool,
        ) by {
            assert(self.has_pool(self.entries[i].staking_pool));
            let p = choose|p: int| self.is_pool_at(p, self.entries[i].staking_pool);
            assert(next.is_pool_at(p, next.entries[i].staking_pool));
        }
    }

    /// A pool can be added for an issued token that has none yet, at an
    /// address that no pool has, if it starts with nothing staked.
    pub proof fn lemma_with_pool_wf(self, address: Pubkey, pool: StakingPool)
        requires
            self.wf(),
            self.token_index(pool.token_mint) is Some,
            self.pool_index(address) is None,
            self.pool_of_index(pool.token_mint) is None,
            pool.total_staked == 0,
        ensures
            self.with_pool(address, pool).wf(),
    {
        let next = self.with_pool(address, pool);
        let n = self.pools.len() as int;
        assert forall|i: int, j: int| 0 <= i < j < next.pools.len() implies next.pools[i].address
            != next.pools[j].address by {
            if j == n {
                assert(!self.is_pool_at(i, address));
            }
        }
        assert forall|i: int, j: int| 0 <= i < j < next.pools.len() implies next.pools[i].pool.token_mint
            != next.pools[j].pool.token_mint by {
            if j == n {
                assert(!self.is_pool_of_at(i, pool.token_mint));
            }
        }
        assert forall|i: int| 0 <= i < next.pools.len() implies next.has_token(
            (#[trigger] next.pools[i]).pool.token_mint,
        ) by {
            if i == n {
                let t = self.token_index(pool.token_mint).unwrap();
                assert(next.is_token_at(t, pool.token_mint));
            } else {
                assert(self.has_token(self.pools[i].pool.token_mint));
                let t = choose|t: int| self.is_token_at(t, self.pools[i].pool.token_mint);
                assert(next.is_token_at(t, next.pools[i].pool.token_mint));
            }
        }
        assert forall|i: int| 0 <= i < next.entries.len() implies next.has_pool(
            (#[trigger] next.entries[i]).staking_pool,
        ) by {
            assert(self.has_pool(self.entries[i].staking_pool));
            let p = choose|p: int| self.is_pool_at(p, self.entries[i].staking_pool);
            assert(next.is_pool_at(p, next.entries[i].staking_pool));
        }
        assert forall|i: int| 0 <= i < self.entries.len() implies self.entries[i].staking_pool
            != address by {
            assert(self.has_pool(self.entries[i].staking_pool));
        }
        lemma_sum_of_strangers(self.entries, address);
        assert forall|i: int| 0 <= i < next.pools.len() implies (#[trigger] next.pools[i]).pool.total_staked
            == staked_sum(next.entries, next.pools[i].address) by {
            if i < n {
                assert(next.pools[i] == self.pools[i]);
            }
        }
    }

    /// An entry can be replaced or added together with its pool if the pool
    /// keeps its token and its total moves by as much as the entry does.
    pub proof fn lemma_with_balance_wf(self, info: StakerInfo, pool: StakingPool)
        requires
            self.wf(),
            self.pool(info.staking_pool) matches Some(before) && pool.token_mint
                == before.token_mint && pool.total_staked - before.total_staked
                == info.staked_amount - self.entry_or_blank(
                info.staker,
                info.staking_pool,
            ).staked_amount,
        ensures
            self.with_balance(info, pool).wf(),
    {
        self.lemma_unique();
        let next = self.with_balance(info, pool);
        let p = self.pool_index(info.staking_pool).unwrap();
        assert(self.is_pool_at(p, info.staking_pool));
        assert(next.tokens == self.tokens);
        assert(next.pools.len() == self.pools.len());
        assert forall|i: int| 0 <= i < next.pools.len() implies next.pools[i].address
            == self.pools[i].address && next.pools[i].pool.token_mint
            == self.pools[i].pool.token_mint by {}
        assert forall|i: int| 0 <= i < next.pools.len() implies next.has_token(
            (#[trigger] next.pools[i]).pool.token_mint,
        ) by {
            assert(self.has_token(self.pools[i].pool.token_mint));
            let t = choose|t: int| self.is_token_at(t, self.pools[i].pool.token_mint);
            assert(next.is_token_at(t, next.pools[i].pool.token_mint));
        }
        match self.entry_index(info.staker, info.staking_pool) {
            Some(e) => {
                assert(self.is_entry_at(e, info.staker, info.staking_pool));
                assert forall|i: int| 0 <= i < next.entries.len() implies next.entries[i].staker
                    == self.entries[i].staker && next.entries[i].staking_pool
                    == self.entries[i].staking_pool by {}
                assert forall|i: int| 0 <= i < next.entries.len() implies next.has_pool(
                    (#[trigger] next.entries[i]).staking_pool,
                ) by {
                    assert(self.has_pool(self.entries[i].staking_pool));
                    let q = choose|q: int| self.is_pool_at(q, self.entries[i].staking_pool);
                    assert(next.is_pool_at(q, next.entries[i].staking_pool));
                }
                assert forall|i: int| 0 <= i < next.pools.len() implies (
                #[trigger] next.pools[i]).pool.total_staked == staked_sum(
                    next.entries,
                    next.pools[i].address,
                ) by {
                    lemma_sum_update(self.entries, e, info, self.pools[i].address);
                    assert(self.pools[i].pool.total_staked == staked_sum(
                        self.entries,
                        self.pools[i].address,
                    ));
                    if i != p {
                        assert(self.pools[i].address != self.pools[p].address);
                    }
                }
            },
            None => {
                let n = self.entries.len() as int;
                assert forall|i: int, j: int| 0 <= i < j < next.entries.len() implies !(
                next.entries[i].staker == next.entries[j].staker && next.entries[i].staking_pool
                    == next.entries[j].staking_pool) by {
                    if j == n {
                        assert(!self.is_entry_at(i, info.staker, info.staking_pool));
                    }
                }
                assert forall|i: int| 0 <= i < next.entries.len() implies next.has_pool(
                    (#[trigger] next.entries[i]).staking_pool,
                ) by {
                    if i == n {
                        assert(next.is_pool_at(p, info.staking_pool));
                    } else {
                        assert(self.has_pool(self.entries[i].staking_pool));
                        let q = choose|q: int| self.is_pool_at(q, self.entries[i].staking_pool);
                        assert(next.is_pool_at(q, next.entries[i].staking_pool));
                    }
                }
                assert forall|i: int| 0 <= i < next.pools.len() implies (
                #[trigger] next.pools[i]).pool.total_staked == staked_sum(
                    next.entries,
                    next.pools[i].address,
                ) by {
                    lemma_sum_push(self.entries, info, self.pools[i].address);
                    assert(self.pools[i].pool.total_staked == staked_sum(
                        self.entries,
                        self.pools[i].address,
                    ));
                    if i != p {
                        assert(self.pools[i].address != self.pools[p].address);
                    }
                }
            },
        }
    }

    /// Adding a token puts it under its identity and moves nothing else.
    pub proof fn lemma_with_token_lookups(self, mint: Pubkey, info: TokenInfoView)
        requires
            self.unique(),
            !self.has_token(mint),
        ensures
            self.with_token(mint, info).unique(),
            self.with_token(mint, info).token(mint) == Some(info),
            forall|other: Pubkey|
                other != mint ==> #[trigger] self.with_token(mint, info).token(other)
                    == self.token(other),
            self.with_token(mint, info).pools == self.pools,
            self.with_token(mint, info).entries == self.entries,
    {
        let next = self.with_token(mint, info);
        let n = self.tokens.len() as int;
        assert forall|i: int, j: int| 0 <= i < j < next.tokens.len() implies next.tokens[i].mint
            != next.tokens[j].mint by {
            if j == n {
                assert(!self.is_token_at(i, mint));
            }
        }
        self.lemma_unique();
        next.lemma_unique();
        assert(next.is_token_at(n, mint));
        assert forall|other: Pubkey| other != mint implies #[trigger] next.token(other)
            == self.token(other) by {
            if self.has_token(other) {
                let i = self.token_index(other).unwrap();
                assert(self.is_token_at(i, other));
                assert(next.is_token_at(i, other));
            } else if next.has_token(other) {
                let i = next.token_index(other).unwrap();
                assert(next.is_token_at(i, other));
                assert(self.is_token_at(i, other));
            }
        }
    }

    /// Adding a pool puts it under its address and under its token, and
    /// moves nothing else.
    pub proof fn lemma_with_pool_lookups(self, address: Pubkey, pool: StakingPool)
        requires
            self.unique(),
            !self.has_pool(address),
            self.pool_of(pool.token_mint) is None,
        ensures
            self.with_pool(address, pool).unique(),
            self.with_pool(address, pool).pool(address) == Some(pool),
            self.with_pool(address, pool).pool_of(pool.token_mint) == Some(address),
            forall|other: Pubkey|
                other != address ==> #[trigger] self.with_pool(address, pool).pool(other)
                    == self.pool(other),
            forall|other: Pubkey|
                other != pool.token_mint ==> #[trigger] self.with_pool(address, pool).pool_of(
                    other,
                ) == self.pool_of(other),
            self.with_pool(address, pool).tokens == self.tokens,
            self.with_pool(address, pool).entries == self.entries,
    {
        let next = self.with_pool(address, pool);
        let n = self.pools.len() as int;
        assert forall|i: int, j: int| 0 <= i < j < next.pools.len() implies next.pools[i].address
            != next.pools[j].address by {
            if j == n {
                assert(!self.is_pool_at(i, address));
            }
        }
        assert forall|i: int, j: int| 0 <= i < j < next.pools.len() implies next.pools[i].pool.token_mint
            != next.pools[j].pool.token_mint by {
            if j == n {
                assert(!self.is_pool_of_at(i, pool.token_mint));
            }
        }
        self.lemma_unique();
        next.lemma_unique();
        assert(next.is_pool_at(n, address));
        assert(next.is_pool_of_at(n, pool.token_mint));
        assert forall|other: Pubkey| other != address implies #[trigger] next.pool(other)
            == self.pool(other) by {
            if self.has_pool(other) {
                let i = self.pool_index(other).unwrap();
                assert(self.is_pool_at(i, other));
                assert(next.is_pool_at(i, other));
            } else if next.has_pool(other) {
                let i = next.pool_index(other).unwrap();
                assert(next.is_pool_at(i, other));
                assert(self.is_pool_at(i, other));
            }
        }
        assert forall|other: Pubkey| other != pool.token_mint implies #[trigger] next.pool_of(
            other,
        ) == self.pool_of(other) by {
            if self.pool_of_index(other) is Some {
                let i = self.pool_of_index(other).unwrap();
                assert(self.is_pool_of_at(i, other));
                assert(next.is_pool_of_at(i, other));
            } else if next.pool_of_index(other) is Some {
                let i = next.pool_of_index(other).unwrap();
                assert(next.is_pool_of_at(i, other));
                assert(self.is_pool_of_at(i, other));
            }
        }
    }

    /// Writing an entry with its pool puts both under their keys and moves
    /// nothing else: no other staker's entry, no entry in another pool, no
    /// other pool, no token.
    pub proof fn lemma_with_balance_lookups(self, info: StakerInfo, pool: StakingPool)
        requires
            self.unique(),
            self.pool(info.staking_pool) matches Some(before) && pool.token_mint
                == before.token_mint,
        ensures
            self.with_balance(info, pool).unique(),
            self.with_balance(info, pool).entry(info.staker, info.staking_pool) == Some(info),
            self.with_balance(info, pool).pool(info.staking_pool) == Some(pool),
            forall|staker: Pubkey, address: Pubkey|
                !(staker == info.staker && address == info.staking_pool)
                    ==> #[trigger] self.with_balance(info, pool).entry(staker, address)
                    == self.entry(staker, address),
            forall|address: Pubkey|
                address != info.staking_pool ==> #[trigger] self.with_balance(info, pool).pool(
                    address,
                ) == self.pool(address),
            self.with_balance(info, pool).tokens == self.tokens,
    {
        self.lemma_unique();
        let next = self.with_balance(info, pool);
        let p = self.pool_index(info.staking_pool).unwrap();
        assert(self.is_pool_at(p, info.staking_pool));
        assert forall|i: int| 0 <= i < next.pools.len() implies next.pools[i].address
            == self.pools[i].address && next.pools[i].pool.token_mint
            == self.pools[i].pool.token_mint by {}
        let n = self.entries.len() as int;
        let at = match self.entry_index(info.staker, info.staking_pool) {
            Some(e) => e,
            None => n,
        };
        if self.entry_index(info.staker, info.staking_pool) is Some {
            assert(self.is_entry_at(at, info.staker, info.staking_pool));
            assert forall|i: int| 0 <= i < next.entries.len() implies next.entries[i].staker
                == self.entries[i].staker && next.entries[i].staking_pool
                == self.entries[i].staking_pool by {}
        } else {
            assert forall|i: int, j: int| 0 <= i < j < next.entries.len() implies !(
            next.entries[i].staker == next.entries[j].staker && next.entries[i].staking_pool
                == next.entries[j].staking_pool) by {
                if j == n {
                    assert(!self.is_entry_at(i, info.staker, info.staking_pool));
                }
            }
        }
        assert(next.unique());
        next.lemma_unique();
        assert(next.is_entry_at(at, info.staker, info.staking_pool));
        assert(next.is_pool_at(p, info.staking_pool));
        assert forall|staker: Pubkey, address: Pubkey|
            !(staker == info.staker && address == info.staking_pool) implies #[trigger] next.entry(
            staker,
            address,
        ) == self.entry(staker, address) by {
            if self.entry_index(staker, address) is Some {
                let i = self.entry_index(staker, address).unwrap();
                assert(self.is_entry_at(i, staker, address));
                assert(next.is_entry_at(i, staker, address));
            } else if next.entry_index(staker, address) is Some {
                let i = next.entry_index(staker, address).unwrap();
                assert(next.is_entry_at(i, staker, address));
                assert(self.is_entry_at(i, staker, address));
            }
        }
        assert forall|address: Pubkey| address != info.staking_pool implies #[trigger] next.pool(
            address,
        ) == self.pool(address) by {
            if self.has_pool(address) {
                let i = self.pool_index(address).unwrap();
                assert(self.is_pool_at(i, address));
                assert(next.is_pool_at(i, address));
            } else if next.has_pool(address) {
                let i = next.pool_index(address).unwrap();
                assert(next.is_pool_at(i, address));
                assert(self.is_pool_at(i, address));
            }
        }
    }
}

} // verus!
