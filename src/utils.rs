use vstd::prelude::*;
use crate::error::{LedgerError, Violation};
use crate::models::Transaction;

verus! {

/// The structural check of a record, independent of any ledger state.
pub open spec fn validation(t: Transaction) -> Result<(), LedgerError> {
    let invalid = |v: Violation|
        Err::<(), LedgerError>(LedgerError::StructuralInvalid { kind: t.tx_type, violation: v });
    if t.client_id == 0 {
        invalid(Violation::ClientIdZero)
    } else if t.tx_id == 0 {
        invalid(Violation::TxIdZero)
    } else if t.tx_type.carries_amount() {
        match t.amount {
            None => invalid(Violation::MissingAmount),
            Some(a) => if a < 0 {
                invalid(Violation::NegativeAmount)
            } else {
                Ok(())
            },
        }
    } else if t.amount is Some {
        invalid(Violation::UnexpectedAmount)
    } else {
        Ok(())
    }
}

/// Checks the identifiers of a record and that its amount is present and
/// non-negative exactly for deposits and withdrawals.
pub fn validate_transaction(transaction: &Transaction) -> (r: Result<(), LedgerError>)
    ensures
        r == validation(*transaction),
{
    let kind = transaction.tx_type;
    if transaction.client_id == 0 {
        return Err(
            LedgerError::StructuralInvalid { kind, violation: Violation::ClientIdZero },
        );
    }
    if transaction.tx_id == 0 {
        return Err(LedgerError::StructuralInvalid { kind, violation: Violation::TxIdZero });
    }
    if kind.has_amount() {
        match transaction.amount {
            Some(amount) => {
                if amount < 0 {
                    return Err(
                        LedgerError::StructuralInvalid {
                            kind,
                            violation: Violation::NegativeAmount,
                        },
                    );
                }
            },
            None => {
                return Err(
                    LedgerError::StructuralInvalid { kind, violation: Violation::MissingAmount },
                );
            },
        }
    } else if transaction.amount.is_some() {
        return Err(
            LedgerError::StructuralInvalid { kind, violation: Violation::UnexpectedAmount },
        );
    }
    Ok(())
}

} // verus!
