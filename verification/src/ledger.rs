//! A ledger that keeps the records itself, finds them by their keys and
//! writes a change only once its fund movement is confirmed.

use crate::accounts::{Deduct, InitializeStakingPool, InitializeToken, Stake, Unstake};
use crate::adr_token;
use crate::error::ErrorCode;
use crate::identity::Pubkey;
use crate::records::{PoolRecord, Records, TokenRecord};
use crate::state::{StakerInfo, StakingPool, TokenInfo};
use crate::token::{MintTo, Settlement, TokenAccount, Transfer};
use vstd::prelude::*;

verus! {

/// A token as the ledger keeps it: its record under its identity.
#[derive(Debug)]
struct IssuedToken {
    mint: Pubkey,
    info: TokenInfo,
}

/// What the operation under way will write once its fund movement is
/// confirmed.
#[derive(Debug)]
enum Staged {
    Token(IssuedToken),
    Pool(PoolRecord),
    Balance(StakerInfo, StakingPool),
}

/// The tokens, pools and stakers' entries, and the operation under way, if
/// there is one.
///
/// An operation is carried out in two steps. The operation itself looks at
/// the records, changes none of them and hands out the fund movement that
/// goes with it. `settle` then takes the token ledger's answer: the records
/// change only when the funds have moved. An operation that is never
/// settled, or that another one overtakes, leaves no trace.
#[derive(Debug)]
pub struct Ledger {
    tokens: Vec<IssuedToken>,
    pools: Vec<PoolRecord>,
    entries: Vec<StakerInfo>,
    staged: Option<Staged>,
}

impl Ledger {
    /// The records as they stand.
    pub closed spec fn records(&self) -> Records {
        Records {
            tokens: Seq::new(
                self.tokens@.len(),
                |i: int| TokenRecord { mint: self.tokens@[i].mint, info: self.tokens@[i].info@ },
            ),
            pools: self.pools@,
            entries: self.entries@,
        }
    }

    /// The records as they will stand if the operation under way is
    /// confirmed; `None` if no operation is under way.
    pub closed spec fn pending(&self) -> Option<Records> {
        match self.staged {
            None => None,
            Some(Staged::Token(token)) => Some(
                self.records().with_token(token.mint, token.info@),
            ),
            Some(Staged::Pool(record)) => Some(
                self.records().with_pool(record.address, record.pool),
            ),
            Some(Staged::Balance(info, pool)) => Some(self.records().with_balance(info, pool)),
        }
    }

    /// The records are well formed, with every pool's total equal to the
    /// sum of what its entries hold, and so are those that a confirmation of
    /// the operation under way would leave. `new` gives such a ledger and
    /// every method keeps it so.
    pub open spec fn wf(&self) -> bool {
        &&& self.records().wf()
        &&& self.pending() matches Some(next) ==> next.wf()
    }

    /// A ledger with no record and no operation under way.
    pub fn new() -> (ledger: Ledger)
        ensures
            ledger.wf(),
            ledger.records() == Records::empty(),
            ledger.pending() is None,
    {
        let ledger = Ledger {
            tokens: Vec::new(),
            pools: Vec::new(),
            entries: Vec::new(),
            staged: None,
        };
        assert(ledger.records().tokens =~= Seq::empty());
        ledger
    }

    fn find_token(&self, mint: &Pubkey) -> (found: Option<usize>)
        requires
            self.records().wf(),
        ensures
            match found {
                Some(i) => self.records().token_index(*mint) == Some(i as int),
                None => !self.records().has_token(*mint),
            },
    {
        let mut i: usize = 0;
        while i < self.tokens.len()
            invariant
                i <= self.tokens.len(),
                self.records().wf(),
                forall|j: int| 0 <= j < i ==> !self.records().is_token_at(j, *mint),
            decreases self.tokens.len() - i,
        {
            if self.tokens[i].mint == *mint {
                proof {
                    assert(self.records().is_token_at(i as int, *mint));
                    self.records().lemma_unique();
                }
                return Some(i);
            }
            i = i + 1;
        }
        None
    }

    fn find_pool(&self, address: &Pubkey) -> (found: Option<usize>)
        requires
            self.records().wf(),
        ensures
            match found {
                Some(i) => self.records().pool_index(*address) == Some(i as int),
                None => !self.records().has_pool(*address),
            },
    {
        let mut i: usize = 0;
        while i < self.pools.len()
            invariant
                i <= self.pools.len(),
                self.records().wf(),
                forall|j: int| 0 <= j < i ==> !self.records().is_pool_at(j, *address),
            decreases self.pools.len() - i,
        {
            if self.pools[i].address == *address {
                proof {
                    assert(self.records().is_pool_at(i as int, *address));
                    self.records().lemma_unique();
                }
                return Some(i);
            }
            i = i + 1;
        }
        None
    }

    fn find_pool_of(&self, mint: &Pubkey) -> (found: Option<usize>)
        requires
            self.records().wf(),
        ensures
            self.records().pool_of_index(*mint) == match found {
                Some(i) => Some(i as int),
                None => None,
            },
    {
        let mut i: usize = 0;
        while i < self.pools.len()
            invariant
                i <= self.pools.len(),
                self.records().wf(),
                forall|j: int| 0 <= j < i ==> !self.records().is_pool_of_at(j, *mint),
            decreases self.pools.len() - i,
        {
            if self.pools[i].pool.token_mint == *mint {
                proof {
                    assert(self.records().is_pool_of_at(i as int, *mint));
                    self.records().lemma_unique();
                }
                return Some(i);
            }
            i = i + 1;
        }
        None
    }

    fn find_entry(&self, staker: &Pubkey, pool: &Pubkey) -> (found: Option<usize>)
        requires
            self.records().wf(),
        ensures
            self.records().entry_index(*staker, *pool) == match found {
                Some(i) => Some(i as int),
                None => None,
            },
    {
        let mut i: usize = 0;
        while i < self.entries.len()
            invariant
                i <= self.entries.len(),
                self.records().wf(),
                forall|j: int| 0 <= j < i ==> !self.records().is_entry_at(j, *staker, *pool),
            decreases self.entries.len() - i,
        {
            if self.entries[i].staker == *staker && self.entries[i].staking_pool == *pool {
                proof {
                    assert(self.records().is_entry_at(i as int, *staker, *pool));
                    self.records().lemma_unique();
                }
                return Some(i);
            }
            i = i + 1;
        }
        None
    }

    /// The record of the token `mint`, if it was issued.
    pub fn token(&self, mint: &Pubkey) -> (found: Option<&TokenInfo>)
        requires
            self.wf(),
        ensures
            match found {
                Some(info) => self.records().token(*mint) == Some(info@),
                None => self.records().token(*mint) is None,
            },
    {
        match self.find_token(mint) {
            Some(i) => Some(&self.tokens[i].info),
            None => None,
        }
    }

    /// The pool at `address`, if it was opened.
    pub fn pool(&self, address: &Pubkey) -> (found: Option<StakingPool>)
        requires
            self.wf(),
        ensures
            found == self.records().pool(*address),
    {
        match self.find_pool(address) {
            Some(i) => Some(self.pools[i].pool),
            None => None,
        }
    }

    /// The address of the pool of the token `mint`, if it was opened.
    pub fn pool_of(&self, mint: &Pubkey) -> (found: Option<Pubkey>)
        requires
            self.wf(),
        ensures
            found == self.records().pool_of(*mint),
    {
        match self.find_pool_of(mint) {
            Some(i) => Some(self.pools[i].address),
            None => None,
        }
    }

    /// The entry of `staker` in `pool`, if the staker ever staked there.
    pub fn staker(&self, staker: &Pubkey, pool: &Pubkey) -> (found: Option<StakerInfo>)
        requires
            self.wf(),
        ensures
            found == self.records().entry(*staker, *pool),
    {
        match self.find_entry(staker, pool) {
            Some(i) => Some(self.entries[i]),
            None => None,
        }
    }

    /// Issues a token. The token's record is written once the mint of the
    /// whole supply is confirmed.
    pub fn issue_token(
        &mut self,
        ctx: &InitializeToken,
        name: String,
        symbol: String,
        decimals: u8,
        total_supply: u64,
    ) -> (res: Result<MintTo, ErrorCode>)
        requires
            old(self).wf(),
        ensures
            final(self).wf(),
            final(self).records() == old(self).records(),
            match res {
                Ok(mint_to) => {
                    &&& old(self).records().issue_token_refusal(*ctx, name@, symbol@) is None
                    &&& mint_to == ctx.mint_to(total_supply)
                    &&& final(self).pending() == Some(
                        old(self).records().after_issue_token(
                            *ctx,
                            name@,
                            symbol@,
                            decimals,
                            total_supply,
                        ),
                    )
                },
                Err(e) => {
                    &&& old(self).records().issue_token_refusal(*ctx, name@, symbol@) == Some(e)
                    &&& final(self).pending() == old(self).pending()
                },
            },
    {
        let ghost before = self.records();
        let ghost name_view = name@;
        let ghost symbol_view = symbol@;
        let (info, mint_to) = match adr_token::initialize_token(
            ctx,
            name,
            symbol,
            decimals,
            total_supply,
        ) {
            Ok(issued) => issued,
            Err(e) => { return Err(e); },
        };
        if self.find_token(&ctx.mint).is_some() {
            return Err(ErrorCode::AlreadyExists);
        }
        proof {
            before.lemma_issue_token_keeps_wf(
                *ctx,
                name_view,
                symbol_view,
                decimals,
                total_supply,
            );
        }
        self.staged = Some(Staged::Token(IssuedToken { mint: ctx.mint, info }));
        Ok(mint_to)
    }

    /// Opens the pool of a token and hands out the vault to create with it,
    /// which the pool itself controls. The pool's record is written once the
    /// vault's creation is confirmed.
    pub fn init_pool(&mut self, ctx: &InitializeStakingPool, reward_rate: u64) -> (res: Result<
        TokenAccount,
        ErrorCode,
    >)
        requires
            old(self).wf(),
        ensures
            final(self).wf(),
            final(self).records() == old(self).records(),
            match res {
                Ok(vault) => {
                    &&& old(self).records().init_pool_refusal(*ctx) is None
                    &&& vault == ctx.vault()
                    &&& final(self).pending() == Some(
                        old(self).records().after_init_pool(*ctx, reward_rate),
                    )
                },
                Err(e) => {
                    &&& old(self).records().init_pool_refusal(*ctx) == Some(e)
                    &&& final(self).pending() == old(self).pending()
                },
            },
    {
        let ghost before = self.records();
        if self.find_token(&ctx.token_mint).is_none() {
            return Err(ErrorCode::RecordNotFound);
        }
        if self.find_pool(&ctx.staking_pool).is_some() || self.find_pool_of(
            &ctx.token_mint,
        ).is_some() {
            return Err(ErrorCode::AlreadyExists);
        }
        let (pool, vault) = match adr_token::initialize_staking_pool(ctx, reward_rate) {
            Ok(opened) => opened,
            Err(e) => { return Err(e); },
        };
        proof {
            before.lemma_init_pool_keeps_wf(*ctx, reward_rate);
        }
        self.staged = Some(Staged::Pool(PoolRecord { address: ctx.staking_pool, pool }));
        Ok(vault)
    }

    /// A holder stakes `amount` at time `now` in the pool named. A staker
    /// without an entry starts from a blank one. Entry and pool are written
    /// once the movement into the vault is confirmed.
    pub fn stake(&mut self, ctx: &Stake, amount: u64, now: i64) -> (res: Result<
        Transfer,
        ErrorCode,
    >)
        requires
            old(self).wf(),
        ensures
            final(self).wf(),
            final(self).records() == old(self).records(),
            match res {
                Ok(transfer) => {
                    &&& old(self).records().stake_refusal(*ctx, amount) is None
                    &&& transfer == ctx.transfer(amount)
                    &&& final(self).pending() == Some(
                        old(self).records().after_stake(*ctx, amount, now),
                    )
                },
                Err(e) => {
                    &&& old(self).records().stake_refusal(*ctx, amount) == Some(e)
                    &&& final(self).pending() == old(self).pending()
                },
            },
    {
        let ghost before = self.records();
        let mut pool = match self.find_pool(&ctx.staking_pool) {
            Some(p) => self.pools[p].pool,
            None => { return Err(ErrorCode::RecordNotFound); },
        };
        let mut info = match self.find_entry(&ctx.staker, &ctx.staking_pool) {
            Some(i) => self.entries[i],
            None => StakerInfo::new(ctx.staker, ctx.staking_pool),
        };
        let transfer = match adr_token::stake(ctx, &mut info, &mut pool, amount, now) {
            Ok(transfer) => transfer,
            Err(e) => { return Err(e); },
        };
        proof {
            before.lemma_stake_keeps_wf(*ctx, amount, now);
        }
        self.staged = Some(Staged::Balance(info, pool));
        Ok(transfer)
    }

    /// The pool's authority takes `amount` from what `ctx.staker` holds in
    /// the pool named. The signer is looked at before the staker's entry:
    /// anyone but the authority is turned away whether or not the entry is
    /// there. Entry and pool are written once the movement out of the vault
    /// is confirmed.
    pub fn deduct(&mut self, ctx: &Deduct, amount: u64) -> (res: Result<Transfer, ErrorCode>)
        requires
            old(self).wf(),
        ensures
            final(self).wf(),
            final(self).records() == old(self).records(),
            match res {
                Ok(transfer) => {
                    &&& old(self).records().deduct_refusal(*ctx, amount) is None
                    &&& transfer == ctx.transfer(amount)
                    &&& final(self).pending() == Some(
                        old(self).records().after_deduct(*ctx, amount),
                    )
                },
                Err(e) => {
                    &&& old(self).records().deduct_refusal(*ctx, amount) == Some(e)
                    &&& final(self).pending() == old(self).pending()
                },
            },
    {
        let ghost before = self.records();
        let mut pool = match self.find_pool(&ctx.staking_pool) {
            Some(p) => self.pools[p].pool,
            None => { return Err(ErrorCode::RecordNotFound); },
        };
        if ctx.admin != pool.authority {
            return Err(ErrorCode::Unauthorized);
        }
        let mut info = match self.find_entry(&ctx.staker, &ctx.staking_pool) {
            Some(i) => self.entries[i],
            None => { return Err(ErrorCode::RecordNotFound); },
        };
        let transfer = match adr_token::deduct(ctx, &mut info, &mut pool, amount) {
            Ok(transfer) => transfer,
            Err(e) => { return Err(e); },
        };
        proof {
            before.lemma_deduct_keeps_wf(*ctx, amount);
        }
        self.staged = Some(Staged::Balance(info, pool));
        Ok(transfer)
    }

    /// A staker takes `amount` back from the pool named. A signer who never
    /// staked there has no entry to take from, whatever accounts are named.
    /// Entry and pool are written once the movement out of the vault is
    /// confirmed.
    pub fn unstake(&mut self, ctx: &Unstake, amount: u64) -> (res: Result<Transfer, ErrorCode>)
        requires
            old(self).wf(),
        ensures
            final(self).wf(),
            final(self).records() == old(self).records(),
            match res {
                Ok(transfer) => {
                    &&& old(self).records().unstake_refusal(*ctx, amount) is None
                    &&& transfer == ctx.transfer(amount)
                    &&& final(self).pending() == Some(
                        old(self).records().after_unstake(*ctx, amount),
                    )
                },
                Err(e) => {
                    &&& old(self).records().unstake_refusal(*ctx, amount) == Some(e)
                    &&& final(self).pending() == old(self).pending()
                },
            },
    {
        let ghost before = self.records();
        let mut pool = match self.find_pool(&ctx.staking_pool) {
            Some(p) => self.pools[p].pool,
            None => { return Err(ErrorCode::RecordNotFound); },
        };
        let mut info = match self.find_entry(&ctx.staker, &ctx.staking_pool) {
            Some(i) => self.entries[i],
            None => { return Err(ErrorCode::RecordNotFound); },
        };
        let transfer = match adr_token::unstake(ctx, &mut info, &mut pool, amount) {
            Ok(transfer) => transfer,
            Err(e) => { return Err(e); },
        };
        proof {
            before.lemma_unstake_keeps_wf(*ctx, amount);
        }
        self.staged = Some(Staged::Balance(info, pool));
        Ok(transfer)
    }

    /// Ends the operation under way with the token ledger's answer. If the
    /// funds moved, what the operation staged is written. If they did not,
    /// nothing is written and the operation fails. Either way no operation
    /// is under way afterwards.
    pub fn settle(&mut self, settlement: Settlement) -> (res: Result<(), ErrorCode>)
        requires
            old(self).wf(),
        ensures
            final(self).wf(),
            final(self).pending() is None,
            match settlement {
                Settlement::Completed => {
                    &&& res is Ok
                    &&& final(self).records() == match old(self).pending() {
                        Some(next) => next,
                        None => old(self).records(),
                    }
                },
                Settlement::Rejected => {
                    &&& res == Err::<(), ErrorCode>(ErrorCode::ExternalTransferFailed)
                    &&& final(self).records() == old(self).records()
                },
            },
    {
        let ghost before = self.records();
        let mut staged: Option<Staged> = None;
        core::mem::swap(&mut self.staged, &mut staged);
        match settlement.outcome() {
            Err(e) => { return Err(e); },
            Ok(()) => {},
        }
        match staged {
            None => {},
            Some(Staged::Token(token)) => {
                let ghost mint = token.mint;
                let ghost info = token.info@;
                self.tokens.push(token);
                assert(self.records().tokens =~= before.with_token(mint, info).tokens);
            },
            Some(Staged::Pool(record)) => {
                self.pools.push(record);
            },
            Some(Staged::Balance(info, pool)) => {
                let pool_at = self.find_pool(&info.staking_pool);
                let entry_at = self.find_entry(&info.staker, &info.staking_pool);
                match pool_at {
                    Some(p) => {
                        self.pools[p] = PoolRecord { address: info.staking_pool, pool };
                    },
                    None => {},
                }
                match entry_at {
                    Some(i) => {
                        self.entries[i] = info;
                    },
                    None => {
                        self.entries.push(info);
                    },
                }
                assert(self.records().tokens =~= before.tokens);
            },
        }
        Ok(())
    }

    /// Whether an operation is under way.
    pub fn has_pending(&self) -> (under_way: bool)
        ensures
            under_way == self.pending() is Some,
    {
        self.staged.is_some()
    }
}

} // verus!
