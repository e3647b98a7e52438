//! The refusals.

use vstd::prelude::*;

verus! {

/// Why an operation was refused. Every refusal is final for the operation
/// that met it: nothing of the operation is kept.
#[derive(Clone, Copy, Debug, PartialEq, Eq, Structural)]
pub enum ErrorCode {
    /// A deduction or withdrawal asked for more than the staker holds.
    InsufficientStakedAmount,
    /// The token name takes more than `MAX_NAME_LEN` bytes.
    NameTooLong,
    /// The token symbol takes more than `MAX_SYMBOL_LEN` bytes.
    SymbolTooLong,
    /// The signer, or an account it named, is not the one the operation asks for.
    Unauthorized,
    /// A balance or a total would exceed the largest amount that can be held.
    ArithmeticOverflow,
    /// A balance or a total would fall below zero.
    ArithmeticUnderflow,
    /// The pool, the token or the staker's entry was never created.
    RecordNotFound,
    /// The record to create is already there.
    AlreadyExists,
    /// The token ledger turned the fund movement down.
    ExternalTransferFailed,
}

impl ErrorCode {
    /// The text shown to the caller for this refusal.
    pub open spec fn spec_message(self) -> Seq<char> {
        match self {
            ErrorCode::InsufficientStakedAmount => "Insufficient staked amount"@,
            ErrorCode::NameTooLong => "Name too long, maximum 32 characters"@,
            ErrorCode::SymbolTooLong => "Symbol too long, maximum 8 characters"@,
            ErrorCode::Unauthorized => "Signer or account not authorized for this operation"@,
            ErrorCode::ArithmeticOverflow => "Amount exceeds the largest balance"@,
            ErrorCode::ArithmeticUnderflow => "Amount exceeds the recorded total"@,
            ErrorCode::RecordNotFound => "Record not found"@,
            ErrorCode::AlreadyExists => "Record already exists"@,
            ErrorCode::ExternalTransferFailed => "Token ledger rejected the fund movement"@,
        }
    }

    pub fn message(&self) -> (text: String)
        ensures
            text@ == self.spec_message(),
    {
        match self {
            ErrorCode::InsufficientStakedAmount => "Insufficient staked amount".to_owned(),
            ErrorCode::NameTooLong => "Name too long, maximum 32 characters".to_owned(),
            ErrorCode::SymbolTooLong => "Symbol too long, maximum 8 characters".to_owned(),
            ErrorCode::Unauthorized => "Signer or account not authorized for this operation".to_owned(),
            ErrorCode::ArithmeticOverflow => "Amount exceeds the largest balance".to_owned(),
            ErrorCode::ArithmeticUnderflow => "Amount exceeds the recorded total".to_owned(),
            ErrorCode::RecordNotFound => "Record not found".to_owned(),
            ErrorCode::AlreadyExists => "Record already exists".to_owned(),
            ErrorCode::ExternalTransferFailed => "Token ledger rejected the fund movement".to_owned(),
        }
    }
}

} // verus!
