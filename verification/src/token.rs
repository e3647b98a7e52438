//! What passes between the ledger and the token ledger that holds the
//! funds: accounts, fund movements and their outcome.

use crate::error::ErrorCode;
use crate::identity::Pubkey;
use vstd::prelude::*;

verus! {

/// What the ledger reads of an account kept by the token ledger: where it
/// is, which token it holds and who controls it.
#[derive(Clone, Copy, Debug, PartialEq, Eq)]
pub struct TokenAccount {
    pub key: Pubkey,
    pub mint: Pubkey,
    pub owner: Pubkey,
}

/// Who signs a fund movement.
#[derive(Clone, Copy, Debug, PartialEq, Eq)]
pub enum Authority {
    /// A holder who signed the operation in person.
    Holder(Pubkey),
    /// The pool at this address, signing for its own vault. No holder can
    /// sign in its place, and it signs for no other pool.
    Pool(Pubkey),
}

/// Asks the token ledger to create `amount` units of `mint` in the account `to`.
#[derive(Clone, Copy, Debug, PartialEq, Eq)]
pub struct MintTo {
    pub mint: Pubkey,
    pub to: Pubkey,
    pub authority: Pubkey,
    pub amount: u64,
}

/// Asks the token ledger to move `amount` units from one account to another.
#[derive(Clone, Copy, Debug, PartialEq, Eq)]
pub struct Transfer {
    pub from: Pubkey,
    pub to: Pubkey,
    pub authority: Authority,
    pub amount: u64,
}

/// What the token ledger answered to a fund movement.
#[derive(Clone, Copy, Debug, PartialEq, Eq, Structural)]
pub enum Settlement {
    Completed,
    Rejected,
}

impl Settlement {
    /// How the operation ends whose fund movement got this answer: a
    /// movement turned down fails the operation.
    pub fn outcome(self) -> (res: Result<(), ErrorCode>)
        ensures
            res == match self {
                Settlement::Completed => Ok::<(), ErrorCode>(()),
                Settlement::Rejected => Err::<(), ErrorCode>(ErrorCode::ExternalTransferFailed),
            },
    {
        match self {
            Settlement::Completed => Ok(()),
            Settlement::Rejected => Err(ErrorCode::ExternalTransferFailed),
        }
    }
}

} // verus!
