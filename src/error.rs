use vstd::prelude::*;
use crate::models::TransactionType;
use crate::money::{amount_display, nat_text, push_amount_display, push_nat};

verus! {

/// Which structural rule a record breaks.
#[derive(Debug, Clone, Copy, PartialEq, Eq, Structural)]
pub enum Violation {
    ClientIdZero,
    TxIdZero,
    MissingAmount,
    NegativeAmount,
    NonPositiveAmount,
    UnexpectedAmount,
}

/// Why a record was not applied. Amounts are in ten-thousandths.
#[derive(Debug, Clone, Copy, PartialEq, Eq, Structural)]
pub enum LedgerError {
    /// The record itself is malformed for its kind.
    StructuralInvalid { kind: TransactionType, violation: Violation },
    /// The client's account is locked.
    AccountLocked { client_id: u16 },
    /// The client has no account.
    AccountNotFound { client_id: u16 },
    /// No deposit or withdrawal with this id was retained.
    ReferenceNotFound { kind: TransactionType, tx_id: u32 },
    /// The referenced record belongs to another client.
    ReferenceMismatch { kind: TransactionType, expected: u16, got: u16 },
    /// The referenced record carries no amount.
    ReferenceWithoutAmount { tx_id: u32 },
    /// More was asked of the available funds than they hold.
    InsufficientFunds { kind: TransactionType, available: i64, requested: i64 },
    /// More was asked of the held funds than they hold.
    InsufficientHeld { kind: TransactionType, held: i64, requested: i64 },
    /// The client's total would leave the range of `i64`.
    BalanceOverflow { client_id: u16 },
}

/// The human-readable text of an error.
pub open spec fn message_text(e: LedgerError) -> Seq<char> {
    match e {
        LedgerError::StructuralInvalid { kind, violation } => match violation {
            Violation::ClientIdZero => "Client ID must be greater than 0"@,
            Violation::TxIdZero => "Transaction ID must be greater than 0"@,
            Violation::MissingAmount => kind.title() + " transaction must have an amount"@,
            Violation::NegativeAmount => kind.title() + " amount must be non-negative"@,
            Violation::NonPositiveAmount => kind.title() + " amount must be positive"@,
            Violation::UnexpectedAmount => kind.title() + " transaction must not have an amount"@,
        },
        LedgerError::AccountLocked { .. } => "Account is locked"@,
        LedgerError::AccountNotFound { client_id } => "Account for client ID "@ + nat_text(
            client_id as nat,
        ) + " not found"@,
        LedgerError::ReferenceNotFound { kind, tx_id } => "Transaction with ID "@ + nat_text(
            tx_id as nat,
        ) + " not found for "@ + kind.name(),
        LedgerError::ReferenceMismatch { kind, expected, got } => kind.title()
            + " client ID mismatch: expected "@ + nat_text(expected as nat) + ", got "@ + nat_text(
            got as nat,
        ),
        LedgerError::ReferenceWithoutAmount { tx_id } => "Transaction with ID "@ + nat_text(
            tx_id as nat,
        ) + " does not have an associated amount"@,
        LedgerError::InsufficientFunds { kind, available, requested } => "Insufficient funds: Available = "@
            + amount_display(available as int) + ", "@ + kind.title() + " amount = "@
            + amount_display(requested as int),
        LedgerError::InsufficientHeld { kind, held, requested } => "Insufficient held funds: Held = "@
            + amount_display(held as int) + ", "@ + kind.title() + " amount = "@ + amount_display(
            requested as int,
        ),
        LedgerError::BalanceOverflow { client_id } => "Balance of client ID "@ + nat_text(
            client_id as nat,
        ) + " would overflow"@,
    }
}

impl LedgerError {
    /// The error as one line of text.
    pub fn message(&self) -> (r: String)
        ensures
            r@ == message_text(*self),
    {
        let mut s = String::new();
        match *self {
            LedgerError::StructuralInvalid { kind, violation } => match violation {
                Violation::ClientIdZero => s.append("Client ID must be greater than 0"),
                Violation::TxIdZero => s.append("Transaction ID must be greater than 0"),
                Violation::MissingAmount => {
                    s.append(kind.title_str());
                    s.append(" transaction must have an amount");
                },
                Violation::NegativeAmount => {
                    s.append(kind.title_str());
                    s.append(" amount must be non-negative");
                },
                Violation::NonPositiveAmount => {
                    s.append(kind.title_str());
                    s.append(" amount must be positive");
                },
                Violation::UnexpectedAmount => {
                    s.append(kind.title_str());
                    s.append(" transaction must not have an amount");
                },
            },
            LedgerError::AccountLocked { .. } => s.append("Account is locked"),
            LedgerError::AccountNotFound { client_id } => {
                s.append("Account for client ID ");
                push_nat(&mut s, client_id as u64);
                s.append(" not found");
            },
            LedgerError::ReferenceNotFound { kind, tx_id } => {
                s.append("Transaction with ID ");
                push_nat(&mut s, tx_id as u64);
                s.append(" not found for ");
                s.append(kind.name_str());
            },
            LedgerError::ReferenceMismatch { kind, expected, got } => {
                s.append(kind.title_str());
                s.append(" client ID mismatch: expected ");
                push_nat(&mut s, expected as u64);
                s.append(", got ");
                push_nat(&mut s, got as u64);
            },
            LedgerError::ReferenceWithoutAmount { tx_id } => {
                s.append("Transaction with ID ");
                push_nat(&mut s, tx_id as u64);
                s.append(" does not have an associated amount");
            },
            LedgerError::InsufficientFunds { kind, available, requested } => {
                s.append("Insufficient funds: Available = ");
                push_amount_display(&mut s, available);
                s.append(", ");
                s.append(kind.title_str());
                s.append(" amount = ");
                push_amount_display(&mut s, requested);
            },
            LedgerError::InsufficientHeld { kind, held, requested } => {
                s.append("Insufficient held funds: Held = ");
                push_amount_display(&mut s, held);
                s.append(", ");
                s.append(kind.title_str());
                s.append(" amount = ");
                push_amount_display(&mut s, requested);
            },
            LedgerError::BalanceOverflow { client_id } => {
                s.append("Balance of client ID ");
                push_nat(&mut s, client_id as u64);
                s.append(" would overflow");
            },
        }
        assert(s@ =~= message_text(*self));
        s
    }
}

} // verus!
