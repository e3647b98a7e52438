use staking_program::accounts::{Deduct, InitializeStakingPool, InitializeToken, Stake, Unstake};
use staking_program::adr_token::{
    deduct, initialize_staking_pool, initialize_token, stake, unstake,
};
use staking_program::error::ErrorCode;
use staking_program::identity::Pubkey;
use staking_program::state::{StakerInfo, StakingPool, MAX_NAME_LEN, MAX_SYMBOL_LEN};
use staking_program::token::{Authority, MintTo, Settlement, TokenAccount, Transfer};

fn id(n: u8) -> Pubkey {
    Pubkey::new([n; 32])
}

const ADMIN: u8 = 1;
const STAKER: u8 = 2;
const MINT: u8 = 3;
const POOL: u8 = 4;
const VAULT: u8 = 5;
const ADMIN_ACCOUNT: u8 = 6;
const STAKER_ACCOUNT: u8 = 7;
const STRANGER: u8 = 8;

fn pool_with(total: u64) -> StakingPool {
    StakingPool {
        authority: id(ADMIN),
        token_mint: id(MINT),
        staking_vault: id(VAULT),
        reward_rate: 0,
        total_staked: total,
    }
}

fn entry_with(amount: u64) -> StakerInfo {
    StakerInfo {
        staker: id(STAKER),
        staking_pool: id(POOL),
        staked_amount: amount,
        last_update_time: 11,
    }
}

fn stake_accounts() -> Stake {
    Stake {
        staker: id(STAKER),
        staking_pool: id(POOL),
        staker_token_account: TokenAccount {
            key: id(STAKER_ACCOUNT),
            mint: id(MINT),
            owner: id(STAKER),
        },
        staking_vault: id(VAULT),
    }
}

fn deduct_accounts() -> Deduct {
    Deduct {
        staker: id(STAKER),
        staking_pool: id(POOL),
        token_mint: id(MINT),
        staking_vault: id(VAULT),
        admin_token_account: TokenAccount {
            key: id(ADMIN_ACCOUNT),
            mint: id(MINT),
            owner: id(ADMIN),
        },
        admin: id(ADMIN),
    }
}

fn unstake_accounts() -> Unstake {
    Unstake {
        staker: id(STAKER),
        staking_pool: id(POOL),
        token_mint: id(MINT),
        staking_vault: id(VAULT),
        staker_token_account: TokenAccount {
            key: id(STAKER_ACCOUNT),
            mint: id(MINT),
            owner: id(STAKER),
        },
    }
}

fn issue_accounts() -> InitializeToken {
    InitializeToken { mint: id(MINT), token_account: id(ADMIN_ACCOUNT), authority: id(ADMIN) }
}

#[test]
fn identities_compare_byte_for_byte() {
    let mut bytes = [9u8; 32];
    assert_eq!(Pubkey::new(bytes), id(9));
    bytes[31] = 10;
    assert_ne!(Pubkey::new(bytes), id(9));
    assert_eq!(Pubkey::new(bytes).to_bytes(), bytes);
    bytes[31] = 9;
    bytes[0] = 0;
    assert_ne!(Pubkey::new(bytes), id(9));
}

#[test]
fn issue_accepts_the_longest_name_and_symbol() {
    let name = "n".repeat(32);
    let symbol = "s".repeat(8);
    assert_eq!(MAX_NAME_LEN, 32);
    assert_eq!(MAX_SYMBOL_LEN, 8);
    let (info, mint_to) =
        initialize_token(&issue_accounts(), name.clone(), symbol.clone(), 6, 1_000_000).unwrap();
    assert_eq!(info.name, name);
    assert_eq!(info.symbol, symbol);
    assert_eq!(info.decimals, 6);
    assert_eq!(info.total_supply, 1_000_000);
    assert_eq!(info.authority, id(ADMIN));
    assert_eq!(
        mint_to,
        MintTo { mint: id(MINT), to: id(ADMIN_ACCOUNT), authority: id(ADMIN), amount: 1_000_000 }
    );
}

#[test]
fn issue_refuses_a_name_of_33_bytes() {
    let res = initialize_token(&issue_accounts(), "n".repeat(33), "SYM".to_string(), 6, 1);
    assert_eq!(res.unwrap_err(), ErrorCode::NameTooLong);
}

#[test]
fn issue_refuses_a_symbol_of_9_bytes() {
    let res = initialize_token(&issue_accounts(), "Name".to_string(), "s".repeat(9), 6, 1);
    assert_eq!(res.unwrap_err(), ErrorCode::SymbolTooLong);
}

#[test]
fn issue_looks_at_the_name_first() {
    let res = initialize_token(&issue_accounts(), "n".repeat(40), "s".repeat(40), 6, 1);
    assert_eq!(res.unwrap_err(), ErrorCode::NameTooLong);
}

#[test]
fn issue_counts_bytes_not_characters() {
    // 16 characters of two bytes each fill the name; a 17th does not fit.
    let fits = "\u{e9}".repeat(16);
    assert_eq!(fits.len(), 32);
    assert!(initialize_token(&issue_accounts(), fits, "S".to_string(), 0, 0).is_ok());
    let res = initialize_token(&issue_accounts(), "\u{e9}".repeat(17), "S".to_string(), 0, 0);
    assert_eq!(res.unwrap_err(), ErrorCode::NameTooLong);
    // 5 characters, 10 bytes.
    let res = initialize_token(&issue_accounts(), "N".to_string(), "\u{e9}".repeat(5), 0, 0);
    assert_eq!(res.unwrap_err(), ErrorCode::SymbolTooLong);
    assert!(initialize_token(&issue_accounts(), String::new(), String::new(), 0, 0).is_ok());
}

#[test]
fn open_pool_starts_empty_with_a_vault_of_its_own() {
    let ctx = InitializeStakingPool {
        staking_pool: id(POOL),
        token_mint: id(MINT),
        staking_vault: id(VAULT),
        authority: id(ADMIN),
    };
    let (pool, vault) = initialize_staking_pool(&ctx, 77).unwrap();
    assert_eq!(
        pool,
        StakingPool {
            authority: id(ADMIN),
            token_mint: id(MINT),
            staking_vault: id(VAULT),
            reward_rate: 77,
            total_staked: 0,
        }
    );
    assert_eq!(vault, TokenAccount { key: id(VAULT), mint: id(MINT), owner: id(POOL) });
}

#[test]
fn stake_adds_to_entry_and_pool_alike() {
    let mut pool = pool_with(1_000);
    let mut entry = entry_with(40);
    let transfer = stake(&stake_accounts(), &mut entry, &mut pool, 500, 99).unwrap();
    assert_eq!(entry.staked_amount, 540);
    assert_eq!(entry.last_update_time, 99);
    assert_eq!(entry.staker, id(STAKER));
    assert_eq!(entry.staking_pool, id(POOL));
    assert_eq!(pool, StakingPool { total_staked: 1_500, ..pool_with(0) });
    assert_eq!(
        transfer,
        Transfer {
            from: id(STAKER_ACCOUNT),
            to: id(VAULT),
            authority: Authority::Holder(id(STAKER)),
            amount: 500,
        }
    );
}

#[test]
fn stake_of_nothing_only_sets_the_time() {
    let mut pool = pool_with(10);
    let mut entry = StakerInfo::new(id(STAKER), id(POOL));
    assert_eq!(entry.staked_amount, 0);
    assert_eq!(entry.last_update_time, 0);
    let transfer = stake(&stake_accounts(), &mut entry, &mut pool, 0, -5).unwrap();
    assert_eq!(transfer.amount, 0);
    assert_eq!(entry.staked_amount, 0);
    assert_eq!(entry.last_update_time, -5);
    assert_eq!(pool.total_staked, 10);
}

#[test]
fn stake_past_the_largest_balance_overflows() {
    let mut pool = pool_with(u64::MAX);
    let mut entry = entry_with(u64::MAX);
    let res = stake(&stake_accounts(), &mut entry, &mut pool, 1, 99);
    assert_eq!(res.unwrap_err(), ErrorCode::ArithmeticOverflow);
    assert_eq!(entry, entry_with(u64::MAX));
    assert_eq!(pool, pool_with(u64::MAX));
}

#[test]
fn stake_past_the_largest_total_overflows() {
    let mut pool = pool_with(u64::MAX - 4);
    let mut entry = entry_with(0);
    let res = stake(&stake_accounts(), &mut entry, &mut pool, 5, 99);
    assert_eq!(res.unwrap_err(), ErrorCode::ArithmeticOverflow);
    assert_eq!(entry, entry_with(0));
    assert_eq!(pool, pool_with(u64::MAX - 4));
    // The largest amount that still fits is taken.
    assert!(stake(&stake_accounts(), &mut entry, &mut pool, 4, 99).is_ok());
    assert_eq!(pool.total_staked, u64::MAX);
    assert_eq!(entry.staked_amount, 4);
}

#[test]
fn stake_refuses_accounts_that_do_not_fit() {
    let good = stake_accounts();
    let wrong_vault = Stake { staking_vault: id(STRANGER), ..good };
    let wrong_token = Stake {
        staker_token_account: TokenAccount { mint: id(STRANGER), ..good.staker_token_account },
        ..good
    };
    let wrong_owner = Stake {
        staker_token_account: TokenAccount { owner: id(STRANGER), ..good.staker_token_account },
        ..good
    };
    let wrong_signer = Stake { staker: id(STRANGER), ..good };
    let wrong_pool = Stake { staking_pool: id(STRANGER), ..good };
    for ctx in [wrong_vault, wrong_token, wrong_owner, wrong_signer, wrong_pool] {
        let mut pool = pool_with(100);
        let mut entry = entry_with(100);
        let res = stake(&ctx, &mut entry, &mut pool, 1, 99);
        assert_eq!(res.unwrap_err(), ErrorCode::Unauthorized);
        assert_eq!(entry, entry_with(100));
        assert_eq!(pool, pool_with(100));
    }
}

#[test]
fn deduct_takes_from_entry_and_pool_alike() {
    let mut pool = pool_with(500);
    let mut entry = entry_with(500);
    let transfer = deduct(&deduct_accounts(), &mut entry, &mut pool, 200).unwrap();
    assert_eq!(entry, entry_with(300));
    assert_eq!(pool, pool_with(300));
    assert_eq!(
        transfer,
        Transfer {
            from: id(VAULT),
            to: id(ADMIN_ACCOUNT),
            authority: Authority::Pool(id(POOL)),
            amount: 200,
        }
    );
}

#[test]
fn deduct_by_anyone_else_is_unauthorized() {
    let ctx = Deduct {
        admin: id(STRANGER),
        admin_token_account: TokenAccount {
            key: id(STRANGER),
            mint: id(MINT),
            owner: id(STRANGER),
        },
        ..deduct_accounts()
    };
    let mut pool = pool_with(500);
    let mut entry = entry_with(500);
    assert_eq!(deduct(&ctx, &mut entry, &mut pool, 200).unwrap_err(), ErrorCode::Unauthorized);
    // Also when the amount is more than the staker holds.
    assert_eq!(deduct(&ctx, &mut entry, &mut pool, 501).unwrap_err(), ErrorCode::Unauthorized);
    // The staker cannot deduct from the entry either.
    let by_staker = Deduct { admin: id(STAKER), ..deduct_accounts() };
    assert_eq!(
        deduct(&by_staker, &mut entry, &mut pool, 1).unwrap_err(),
        ErrorCode::Unauthorized
    );
    assert_eq!(entry, entry_with(500));
    assert_eq!(pool, pool_with(500));
}

#[test]
fn deduct_refuses_accounts_that_do_not_fit() {
    let good = deduct_accounts();
    let wrong_vault = Deduct { staking_vault: id(STRANGER), ..good };
    let wrong_token = Deduct { token_mint: id(STRANGER), ..good };
    let wrong_destination_token = Deduct {
        admin_token_account: TokenAccount { mint: id(STRANGER), ..good.admin_token_account },
        ..good
    };
    let wrong_destination_owner = Deduct {
        admin_token_account: TokenAccount { owner: id(STAKER), ..good.admin_token_account },
        ..good
    };
    let wrong_staker = Deduct { staker: id(STRANGER), ..good };
    let wrong_pool = Deduct { staking_pool: id(STRANGER), ..good };
    for ctx in [
        wrong_vault,
        wrong_token,
        wrong_destination_token,
        wrong_destination_owner,
        wrong_staker,
        wrong_pool,
    ] {
        let mut pool = pool_with(100);
        let mut entry = entry_with(100);
        let res = deduct(&ctx, &mut entry, &mut pool, 1);
        assert_eq!(res.unwrap_err(), ErrorCode::Unauthorized);
        assert_eq!(entry, entry_with(100));
        assert_eq!(pool, pool_with(100));
    }
}

#[test]
fn deduct_of_more_than_is_held_is_refused() {
    let mut pool = pool_with(900);
    let mut entry = entry_with(300);
    let res = deduct(&deduct_accounts(), &mut entry, &mut pool, 301);
    assert_eq!(res.unwrap_err(), ErrorCode::InsufficientStakedAmount);
    assert_eq!(entry, entry_with(300));
    assert_eq!(pool, pool_with(900));
    // All that is held can be taken.
    assert!(deduct(&deduct_accounts(), &mut entry, &mut pool, 300).is_ok());
    assert_eq!(entry.staked_amount, 0);
    assert_eq!(pool.total_staked, 600);
}

#[test]
fn deduct_below_an_empty_total_underflows() {
    let mut pool = pool_with(100);
    let mut entry = entry_with(300);
    let res = deduct(&deduct_accounts(), &mut entry, &mut pool, 200);
    assert_eq!(res.unwrap_err(), ErrorCode::ArithmeticUnderflow);
    assert_eq!(entry, entry_with(300));
    assert_eq!(pool, pool_with(100));
}

#[test]
fn unstake_returns_funds_under_the_pools_signature() {
    let mut pool = pool_with(300);
    let mut entry = entry_with(300);
    let transfer = unstake(&unstake_accounts(), &mut entry, &mut pool, 300).unwrap();
    assert_eq!(entry, entry_with(0));
    assert_eq!(pool, pool_with(0));
    assert_eq!(
        transfer,
        Transfer {
            from: id(VAULT),
            to: id(STAKER_ACCOUNT),
            authority: Authority::Pool(id(POOL)),
            amount: 300,
        }
    );
}

#[test]
fn unstake_by_anyone_else_is_unauthorized() {
    let ctx = Unstake {
        staker: id(STRANGER),
        staker_token_account: TokenAccount {
            key: id(STRANGER),
            mint: id(MINT),
            owner: id(STRANGER),
        },
        ..unstake_accounts()
    };
    let mut pool = pool_with(300);
    let mut entry = entry_with(300);
    assert_eq!(unstake(&ctx, &mut entry, &mut pool, 1).unwrap_err(), ErrorCode::Unauthorized);
    assert_eq!(unstake(&ctx, &mut entry, &mut pool, 999).unwrap_err(), ErrorCode::Unauthorized);
    // The pool's authority cannot withdraw in the staker's name.
    let by_admin = Unstake { staker: id(ADMIN), ..unstake_accounts() };
    assert_eq!(
        unstake(&by_admin, &mut entry, &mut pool, 1).unwrap_err(),
        ErrorCode::Unauthorized
    );
    assert_eq!(entry, entry_with(300));
    assert_eq!(pool, pool_with(300));
}

#[test]
fn unstake_refuses_accounts_that_do_not_fit() {
    let good = unstake_accounts();
    let wrong_vault = Unstake { staking_vault: id(STRANGER), ..good };
    let wrong_token = Unstake { token_mint: id(STRANGER), ..good };
    let wrong_destination_token = Unstake {
        staker_token_account: TokenAccount { mint: id(STRANGER), ..good.staker_token_account },
        ..good
    };
    let wrong_destination_owner = Unstake {
        staker_token_account: TokenAccount { owner: id(ADMIN), ..good.staker_token_account },
        ..good
    };
    let wrong_pool = Unstake { staking_pool: id(STRANGER), ..good };
    for ctx in
        [wrong_vault, wrong_token, wrong_destination_token, wrong_destination_owner, wrong_pool]
    {
        let mut pool = pool_with(100);
        let mut entry = entry_with(100);
        let res = unstake(&ctx, &mut entry, &mut pool, 1);
        assert_eq!(res.unwrap_err(), ErrorCode::Unauthorized);
        assert_eq!(entry, entry_with(100));
        assert_eq!(pool, pool_with(100));
    }
}

#[test]
fn unstake_of_more_than_is_held_is_refused() {
    let mut pool = pool_with(900);
    let mut entry = entry_with(300);
    let res = unstake(&unstake_accounts(), &mut entry, &mut pool, 301);
    assert_eq!(res.unwrap_err(), ErrorCode::InsufficientStakedAmount);
    assert_eq!(entry, entry_with(300));
    assert_eq!(pool, pool_with(900));
    let mut empty_pool = pool_with(0);
    let res = unstake(&unstake_accounts(), &mut entry, &mut empty_pool, 300);
    assert_eq!(res.unwrap_err(), ErrorCode::ArithmeticUnderflow);
    assert_eq!(entry, entry_with(300));
}

#[test]
fn account_checks_answer_for_themselves() {
    assert!(stake_accounts().admits(&pool_with(0)));
    assert!(stake_accounts().names(&entry_with(0)));
    assert!(!stake_accounts().names(&StakerInfo::new(id(STRANGER), id(POOL))));
    assert!(deduct_accounts().admits(&pool_with(0)));
    assert!(!Deduct { admin: id(STAKER), ..deduct_accounts() }.admits(&pool_with(0)));
    assert!(deduct_accounts().names(&entry_with(0)));
    assert!(unstake_accounts().admits(&pool_with(0)));
    assert!(!unstake_accounts().names(&StakerInfo::new(id(STAKER), id(STRANGER))));
}

#[test]
fn every_refusal_has_its_text() {
    assert_eq!(ErrorCode::InsufficientStakedAmount.message(), "Insufficient staked amount");
    assert_eq!(ErrorCode::NameTooLong.message(), "Name too long, maximum 32 characters");
    assert_eq!(ErrorCode::SymbolTooLong.message(), "Symbol too long, maximum 8 characters");
    let all = [
        ErrorCode::InsufficientStakedAmount,
        ErrorCode::NameTooLong,
        ErrorCode::SymbolTooLong,
        ErrorCode::Unauthorized,
        ErrorCode::ArithmeticOverflow,
        ErrorCode::ArithmeticUnderflow,
        ErrorCode::RecordNotFound,
        ErrorCode::AlreadyExists,
        ErrorCode::ExternalTransferFailed,
    ];
    for (i, a) in all.iter().enumerate() {
        assert!(!a.message().is_empty());
        for b in all.iter().skip(i + 1) {
            assert_ne!(a, b);
            assert_ne!(a.message(), b.message());
        }
    }
}

#[test]
fn a_movement_turned_down_fails_the_operation() {
    assert_eq!(Settlement::Completed.outcome(), Ok(()));
    assert_eq!(Settlement::Rejected.outcome(), Err(ErrorCode::ExternalTransferFailed));
}
