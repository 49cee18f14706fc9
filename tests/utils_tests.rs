use toy_payments_engine::engine::TransactionEngine;
use toy_payments_engine::error::{LedgerError, Violation};
use toy_payments_engine::models::{ClientAccount, Transaction, TransactionType};
use toy_payments_engine::record::account_header;
use toy_payments_engine::utils::validate_transaction;

#[test]
fn test_validate_transaction_valid_cases() {
    let valid_deposit = Transaction {
        tx_type: TransactionType::Deposit,
        client_id: 1,
        tx_id: 1,
        amount: Some(15_000),
    };

    let valid_withdrawal = Transaction {
        tx_type: TransactionType::Withdrawal,
        client_id: 1,
        tx_id: 2,
        amount: Some(5_000),
    };

    assert!(validate_transaction(&valid_deposit).is_ok(), "Valid deposit should pass validation");
    assert!(validate_transaction(&valid_withdrawal).is_ok(), "Valid withdrawal should pass validation");
}

#[test]
fn test_validate_transaction_invalid_cases() {
    let invalid_client = Transaction {
        tx_type: TransactionType::Deposit,
        client_id: 0,
        tx_id: 1,
        amount: Some(15_000),
    };

    let invalid_tx_id = Transaction {
        tx_type: TransactionType::Withdrawal,
        client_id: 1,
        tx_id: 0,
        amount: Some(5_000),
    };

    let negative_amount = Transaction {
        tx_type: TransactionType::Deposit,
        client_id: 1,
        tx_id: 2,
        amount: Some(-10_000),
    };

    let dispute_with_amount = Transaction {
        tx_type: TransactionType::Dispute,
        client_id: 1,
        tx_id: 3,
        amount: Some(10_000),
    };

    assert!(validate_transaction(&invalid_client).is_err(), "Invalid client ID should fail validation");
    assert!(validate_transaction(&invalid_tx_id).is_err(), "Invalid transaction ID should fail validation");
    assert!(validate_transaction(&negative_amount).is_err(), "Negative amount should fail validation");
    assert!(validate_transaction(&dispute_with_amount).is_err(), "Dispute with amount should fail validation");
}

#[test]
fn utils_tests_test_export_accounts_to_stdout() {
    let mut engine = TransactionEngine::new();

    engine.accounts.insert(
        1,
        ClientAccount {
            client_id: 1,
            available: 1_000_000,
            held: 0,
            total: 1_000_000,
            locked: false,
        },
    );
    engine.accounts.insert(
        2,
        ClientAccount {
            client_id: 2,
            available: 2_000_000,
            held: 500_000,
            total: 2_500_000,
            locked: true,
        },
    );

    let mut output = account_header().join(",");
    output.push('\n');
    for account in engine.accounts.values() {
        output.push_str(&account.fields().join(","));
        output.push('\n');
    }

    assert!(output.contains("client,available,held,total,locked"));
    assert!(output.contains("1,100.0000,0.0000,100.0000,false"));
    assert!(output.contains("2,200.0000,50.0000,250.0000,true"));
}

#[test]
fn validation_reports_each_violation() {
    let base = Transaction { tx_type: TransactionType::Deposit, client_id: 1, tx_id: 1, amount: Some(0) };
    assert_eq!(validate_transaction(&base), Ok(()));
    let missing = Transaction { amount: None, ..base };
    assert_eq!(
        validate_transaction(&missing),
        Err(LedgerError::StructuralInvalid { kind: TransactionType::Deposit, violation: Violation::MissingAmount })
    );
    let negative = Transaction { tx_type: TransactionType::Withdrawal, amount: Some(-1), ..base };
    assert_eq!(
        validate_transaction(&negative),
        Err(LedgerError::StructuralInvalid { kind: TransactionType::Withdrawal, violation: Violation::NegativeAmount })
    );
    let zero_client = Transaction { client_id: 0, tx_id: 0, ..base };
    assert_eq!(
        validate_transaction(&zero_client),
        Err(LedgerError::StructuralInvalid { kind: TransactionType::Deposit, violation: Violation::ClientIdZero })
    );
    let zero_tx = Transaction { tx_id: 0, ..base };
    assert_eq!(
        validate_transaction(&zero_tx),
        Err(LedgerError::StructuralInvalid { kind: TransactionType::Deposit, violation: Violation::TxIdZero })
    );
    let resolve_with_amount = Transaction { tx_type: TransactionType::Resolve, ..base };
    assert_eq!(
        validate_transaction(&resolve_with_amount),
        Err(LedgerError::StructuralInvalid { kind: TransactionType::Resolve, violation: Violation::UnexpectedAmount })
    );
    let chargeback = Transaction { tx_type: TransactionType::Chargeback, amount: None, ..base };
    assert_eq!(validate_transaction(&chargeback), Ok(()));
}
