use rust_decimal::Decimal;
use std::str::FromStr;
use transactions_engine::account::{AccountError, AccountSnapshot};
use transactions_engine::amount::Amount;
use transactions_engine::engine::TransactionEngine;
use transactions_engine::engine_error::EngineError;
use transactions_engine::run;
use transactions_engine::transaction::{Transaction, TransactionType};

fn money(text: &str) -> Amount {
    let value = Decimal::from_str(text).unwrap();
    Amount::new(value.mantissa(), value.scale()).unwrap()
}

fn shown(amount: Amount) -> String {
    Decimal::from_i128_with_scale(amount.mantissa, amount.scale).to_string()
}

fn deposit(client: u16, tx: u32, amount: &str) -> Transaction {
    Transaction {
        transaction_type: TransactionType::Deposit,
        client,
        tx,
        amount: Some(money(amount)),
    }
}

fn withdrawal(client: u16, tx: u32, amount: &str) -> Transaction {
    Transaction {
        transaction_type: TransactionType::Withdrawal,
        client,
        tx,
        amount: Some(money(amount)),
    }
}

fn dispute(client: u16, tx: u32) -> Transaction {
    Transaction { transaction_type: TransactionType::Dispute, client, tx, amount: None }
}

fn resolve(client: u16, tx: u32) -> Transaction {
    Transaction { transaction_type: TransactionType::Resolve, client, tx, amount: None }
}

fn chargeback(client: u16, tx: u32) -> Transaction {
    Transaction { transaction_type: TransactionType::Chargeback, client, tx, amount: None }
}

/// One row as the text of its fields: client, available, held, total, locked.
fn row(snapshot: &AccountSnapshot) -> String {
    format!(
        "{},{},{},{},{}",
        snapshot.client,
        shown(snapshot.available),
        shown(snapshot.held),
        shown(snapshot.total),
        snapshot.locked
    )
}

fn rows(engine: &TransactionEngine) -> Vec<String> {
    engine.account_balances().iter().map(row).collect()
}

fn invalid(result: Result<(), EngineError>) -> String {
    match result {
        Err(EngineError::InvalidTransaction(reason)) => reason,
        other => panic!("expected an invalid transaction, got {:?}", other),
    }
}

fn refused(result: Result<(), EngineError>) -> String {
    match result {
        Err(EngineError::AccountError(reason)) => reason,
        other => panic!("expected an account error, got {:?}", other),
    }
}

#[test]
fn new_engine_reports_nothing() {
    let engine = TransactionEngine::new();
    assert!(engine.account_balances().is_empty());
}

#[test]
fn deposit_creates_the_account() {
    let mut engine = TransactionEngine::new();
    assert!(engine.process_transaction(deposit(1, 1, "10.0")).is_ok());
    assert_eq!(rows(&engine), vec!["1,10.0,0,10.0,false"]);
}

#[test]
fn deposit_then_withdrawal() {
    let mut engine = TransactionEngine::new();
    assert!(engine.process_transaction(deposit(1, 1, "10.0")).is_ok());
    assert!(engine.process_transaction(withdrawal(1, 2, "5.0")).is_ok());
    assert_eq!(rows(&engine), vec!["1,5.0,0,5.0,false"]);
}

#[test]
fn dispute_then_resolve() {
    let mut engine = TransactionEngine::new();
    assert!(engine.process_transaction(deposit(1, 1, "10.0")).is_ok());
    assert!(engine.process_transaction(dispute(1, 1)).is_ok());
    assert_eq!(rows(&engine), vec!["1,0.0,10.0,10.0,false"]);
    assert!(engine.process_transaction(resolve(1, 1)).is_ok());
    assert_eq!(rows(&engine), vec!["1,10.0,0.0,10.0,false"]);
}

#[test]
fn dispute_then_chargeback_locks_the_account() {
    let mut engine = TransactionEngine::new();
    assert!(engine.process_transaction(deposit(1, 1, "10.0")).is_ok());
    assert!(engine.process_transaction(dispute(1, 1)).is_ok());
    assert!(engine.process_transaction(chargeback(1, 1)).is_ok());
    assert_eq!(rows(&engine), vec!["1,0.0,0.0,0.0,true"]);
    assert_eq!(refused(engine.process_transaction(deposit(1, 3, "5.0"))), "Account is locked");
    assert_eq!(rows(&engine), vec!["1,0.0,0.0,0.0,true"]);
    // The refused deposit was not kept: its id is still free, and unknown to disputes.
    assert_eq!(
        invalid(engine.process_transaction(dispute(1, 3))),
        "Cannot dispute non-existent transaction: 3"
    );
}

#[test]
fn withdrawal_without_funds_is_refused() {
    let mut engine = TransactionEngine::new();
    assert_eq!(
        refused(engine.process_transaction(withdrawal(1, 1, "10.0"))),
        "Insufficient funds"
    );
    // The client has an account from now on, with nothing in it.
    assert_eq!(rows(&engine), vec!["1,0,0,0,false"]);
    assert!(engine.process_transaction(deposit(1, 2, "3")).is_ok());
    assert_eq!(
        refused(engine.process_transaction(withdrawal(1, 3, "3.0001"))),
        "Insufficient funds"
    );
    assert_eq!(rows(&engine), vec!["1,3,0,3,false"]);
    // The refused withdrawals were not kept.
    assert!(engine.process_transaction(withdrawal(1, 1, "1")).is_ok());
    assert_eq!(rows(&engine), vec!["1,2,0,2,false"]);
}

#[test]
fn duplicate_id_is_rejected() {
    let mut engine = TransactionEngine::new();
    assert!(engine.process_transaction(deposit(1, 1, "10.0")).is_ok());
    assert_eq!(
        invalid(engine.process_transaction(deposit(1, 1, "4.0"))),
        "Duplicate transaction ID: 1"
    );
    assert_eq!(rows(&engine), vec!["1,10.0,0,10.0,false"]);
    assert_eq!(
        invalid(engine.process_transaction(withdrawal(2, 1, "4.0"))),
        "Duplicate transaction ID: 1"
    );
    assert_eq!(rows(&engine), vec!["1,10.0,0,10.0,false"]);
    assert!(engine.process_transaction(withdrawal(1, 4294967295, "1.0")).is_ok());
    assert_eq!(
        invalid(engine.process_transaction(deposit(1, 4294967295, "1.0"))),
        "Duplicate transaction ID: 4294967295"
    );
}

#[test]
fn validation_checks_the_amount_first() {
    let engine = TransactionEngine::new();
    let no_amount = Transaction {
        transaction_type: TransactionType::Deposit,
        client: 1,
        tx: 1,
        amount: None,
    };
    assert_eq!(
        invalid(engine.validate_transaction(&no_amount)),
        "Deposit and withdrawal transactions must have an amount"
    );
    let no_amount = Transaction { transaction_type: TransactionType::Withdrawal, ..no_amount };
    assert_eq!(
        invalid(engine.validate_transaction(&no_amount)),
        "Deposit and withdrawal transactions must have an amount"
    );
    for kind in [TransactionType::Dispute, TransactionType::Resolve, TransactionType::Chargeback] {
        let with_amount =
            Transaction { transaction_type: kind, client: 1, tx: 1, amount: Some(money("-1")) };
        assert_eq!(
            invalid(engine.validate_transaction(&with_amount)),
            "Dispute, resolve, and chargeback transactions should not have an amount"
        );
    }
    assert_eq!(
        invalid(engine.validate_transaction(&deposit(1, 1, "0"))),
        "Transaction amount must be positive"
    );
    assert_eq!(
        invalid(engine.validate_transaction(&deposit(1, 1, "0.000"))),
        "Transaction amount must be positive"
    );
    assert_eq!(
        invalid(engine.validate_transaction(&withdrawal(1, 1, "-0.0001"))),
        "Transaction amount must be positive"
    );
    assert!(engine.validate_transaction(&deposit(1, 1, "0.0001")).is_ok());
    assert!(engine.validate_transaction(&withdrawal(1, 1, "5")).is_ok());
    assert!(engine.validate_transaction(&dispute(1, 1)).is_ok());
    assert!(engine.validate_transaction(&resolve(1, 1)).is_ok());
    assert!(engine.validate_transaction(&chargeback(1, 1)).is_ok());
}

#[test]
fn a_negative_amount_is_reported_before_a_duplicate_id() {
    let mut engine = TransactionEngine::new();
    assert!(engine.process_transaction(deposit(1, 1, "10.0")).is_ok());
    assert_eq!(
        invalid(engine.process_transaction(deposit(1, 1, "-4.0"))),
        "Transaction amount must be positive"
    );
}

#[test]
fn invalid_records_change_nothing() {
    let mut engine = TransactionEngine::new();
    assert!(engine.process_transaction(deposit(5, 1, "1")).is_ok());
    let before = engine.account_balances();
    let no_amount = Transaction {
        transaction_type: TransactionType::Deposit,
        client: 6,
        tx: 2,
        amount: None,
    };
    assert!(engine.process_transaction(no_amount).is_err());
    assert!(engine.process_transaction(deposit(6, 3, "-1")).is_err());
    assert!(engine.process_transaction(withdrawal(6, 1, "1")).is_err());
    // None of them opened an account for client 6.
    assert_eq!(engine.account_balances(), before);
}

#[test]
fn disputes_must_name_a_known_deposit_of_the_client() {
    let mut engine = TransactionEngine::new();
    assert!(engine.process_transaction(deposit(1, 1, "10.0")).is_ok());
    assert!(engine.process_transaction(withdrawal(1, 2, "4.0")).is_ok());
    assert!(engine.process_transaction(deposit(2, 3, "1.0")).is_ok());
    assert_eq!(
        invalid(engine.process_transaction(dispute(1, 77))),
        "Cannot dispute non-existent transaction: 77"
    );
    assert_eq!(
        invalid(engine.process_transaction(resolve(1, 78))),
        "Cannot resolve non-existent transaction: 78"
    );
    assert_eq!(
        invalid(engine.process_transaction(chargeback(1, 0))),
        "Cannot chargeback non-existent transaction: 0"
    );
    assert_eq!(
        invalid(engine.process_transaction(dispute(2, 1))),
        "Cannot dispute transaction from different client"
    );
    assert_eq!(
        invalid(engine.process_transaction(resolve(2, 1))),
        "Cannot resolve transaction from different client"
    );
    assert_eq!(
        invalid(engine.process_transaction(chargeback(2, 1))),
        "Cannot chargeback transaction from different client"
    );
    assert_eq!(
        invalid(engine.process_transaction(dispute(9, 1))),
        "Cannot dispute transaction from different client"
    );
    assert_eq!(
        invalid(engine.process_transaction(dispute(1, 2))),
        "Only deposit transactions can be disputed"
    );
    assert_eq!(rows(&engine), vec!["1,6.0,0,6.0,false", "2,1.0,0,1.0,false"]);
}

#[test]
fn resolve_and_chargeback_need_a_dispute() {
    let mut engine = TransactionEngine::new();
    assert!(engine.process_transaction(deposit(1, 1, "10.0")).is_ok());
    assert!(engine.process_transaction(withdrawal(1, 2, "1.0")).is_ok());
    assert_eq!(refused(engine.process_transaction(resolve(1, 1))), "Transaction not disputed");
    assert_eq!(refused(engine.process_transaction(chargeback(1, 1))), "Transaction not disputed");
    // A withdrawal can be named, but is never under dispute.
    assert_eq!(refused(engine.process_transaction(resolve(1, 2))), "Transaction not disputed");
    assert_eq!(refused(engine.process_transaction(chargeback(1, 2))), "Transaction not disputed");
    assert_eq!(rows(&engine), vec!["1,9.0,0,9.0,false"]);
}

#[test]
fn repeated_dispute_is_refused() {
    let mut engine = TransactionEngine::new();
    assert!(engine.process_transaction(deposit(1, 1, "10.0")).is_ok());
    assert!(engine.process_transaction(dispute(1, 1)).is_ok());
    assert_eq!(
        refused(engine.process_transaction(dispute(1, 1))),
        "Transaction already disputed"
    );
    assert_eq!(rows(&engine), vec!["1,0.0,10.0,10.0,false"]);
    // Once resolved, the deposit stays in the history and can be disputed anew.
    assert!(engine.process_transaction(resolve(1, 1)).is_ok());
    assert_eq!(
        invalid(engine.process_transaction(deposit(1, 1, "1.0"))),
        "Duplicate transaction ID: 1"
    );
    assert!(engine.process_transaction(dispute(1, 1)).is_ok());
    assert_eq!(rows(&engine), vec!["1,0.0,10.0,10.0,false"]);
}

#[test]
fn repeated_chargeback_is_refused() {
    let mut engine = TransactionEngine::new();
    assert!(engine.process_transaction(deposit(1, 1, "10.0")).is_ok());
    assert!(engine.process_transaction(deposit(1, 2, "2.5")).is_ok());
    assert!(engine.process_transaction(dispute(1, 1)).is_ok());
    assert!(engine.process_transaction(chargeback(1, 1)).is_ok());
    assert_eq!(refused(engine.process_transaction(chargeback(1, 1))), "Transaction not disputed");
    assert_eq!(rows(&engine), vec!["1,2.5,0.0,2.5,true"]);
}

#[test]
fn locked_account_refuses_everything_but_chargeback() {
    let mut engine = TransactionEngine::new();
    assert!(engine.process_transaction(deposit(1, 1, "10.0")).is_ok());
    assert!(engine.process_transaction(deposit(1, 2, "5.0")).is_ok());
    assert!(engine.process_transaction(dispute(1, 1)).is_ok());
    assert!(engine.process_transaction(dispute(1, 2)).is_ok());
    assert!(engine.process_transaction(chargeback(1, 1)).is_ok());
    assert_eq!(rows(&engine), vec!["1,0.0,5.0,5.0,true"]);
    assert_eq!(refused(engine.process_transaction(deposit(1, 3, "1.0"))), "Account is locked");
    assert_eq!(refused(engine.process_transaction(withdrawal(1, 4, "1.0"))), "Account is locked");
    assert_eq!(refused(engine.process_transaction(dispute(1, 2))), "Account is locked");
    assert_eq!(refused(engine.process_transaction(resolve(1, 2))), "Account is locked");
    assert_eq!(rows(&engine), vec!["1,0.0,5.0,5.0,true"]);
    assert!(engine.process_transaction(chargeback(1, 2)).is_ok());
    assert_eq!(rows(&engine), vec!["1,0.0,0.0,0.0,true"]);
    // Other clients are not affected.
    assert!(engine.process_transaction(deposit(2, 5, "1.0")).is_ok());
    assert_eq!(rows(&engine), vec!["1,0.0,0.0,0.0,true", "2,1.0,0,1.0,false"]);
}

#[test]
fn dispute_after_withdrawal_holds_what_is_left() {
    let mut engine = TransactionEngine::new();
    assert!(engine.process_transaction(deposit(1, 1, "10.0")).is_ok());
    assert!(engine.process_transaction(withdrawal(1, 2, "7.5")).is_ok());
    assert!(engine.process_transaction(dispute(1, 1)).is_ok());
    assert_eq!(rows(&engine), vec!["1,0.0,2.5,2.5,false"]);
    assert!(engine.process_transaction(chargeback(1, 1)).is_ok());
    assert_eq!(rows(&engine), vec!["1,0.0,0.0,0.0,true"]);
}

#[test]
fn order_of_records_matters() {
    let mut first = TransactionEngine::new();
    for record in [deposit(1, 1, "10"), deposit(1, 2, "5"), dispute(1, 1), chargeback(1, 1), dispute(1, 2)] {
        let _ = first.process_transaction(record);
    }
    assert_eq!(rows(&first), vec!["1,5,0,5,true"]);
    let mut second = TransactionEngine::new();
    for record in [deposit(1, 1, "10"), deposit(1, 2, "5"), dispute(1, 1), dispute(1, 2), chargeback(1, 1)] {
        let _ = second.process_transaction(record);
    }
    assert_eq!(rows(&second), vec!["1,0,5,5,true"]);
}

#[test]
fn balances_are_reported_by_ascending_client() {
    let mut engine = TransactionEngine::new();
    for (tx, client) in [65535u16, 3, 0, 700, 2, 40000].iter().enumerate() {
        assert!(engine.process_transaction(deposit(*client, tx as u32, "1.5")).is_ok());
    }
    let clients: Vec<u16> = engine.account_balances().iter().map(|row| row.client).collect();
    assert_eq!(clients, vec![0, 2, 3, 700, 40000, 65535]);
}

#[test]
fn balances_are_rounded_but_kept_in_full() {
    let mut engine = TransactionEngine::new();
    assert!(engine.process_transaction(deposit(1, 1, "0.00005")).is_ok());
    assert_eq!(rows(&engine), vec!["1,0.0000,0,0.0000,false"]);
    assert!(engine.process_transaction(deposit(1, 2, "0.00005")).is_ok());
    assert_eq!(rows(&engine), vec!["1,0.0001,0,0.0001,false"]);
    assert!(engine.process_transaction(deposit(1, 3, "1.00005")).is_ok());
    assert_eq!(rows(&engine), vec!["1,1.0002,0,1.0002,false"]);
    assert!(engine.process_transaction(withdrawal(1, 4, "1.00015")).is_ok());
    assert_eq!(rows(&engine), vec!["1,0.0000,0,0.0000,false"]);
}

#[test]
fn balance_that_would_leave_the_range_is_refused() {
    let mut engine = TransactionEngine::new();
    assert!(engine
        .process_transaction(deposit(1, 1, "79228162514264337593543950335"))
        .is_ok());
    assert_eq!(refused(engine.process_transaction(deposit(1, 2, "1"))), "Amount out of range");
    assert_eq!(refused(engine.process_transaction(deposit(1, 3, "0.1"))), "Amount out of range");
    assert_eq!(refused(engine.process_transaction(withdrawal(1, 4, "0.1"))), "Amount out of range");
    assert_eq!(rows(&engine), vec!["1,79228162514264337593543950335,0,79228162514264337593543950335,false"]);
    // The refused records were not kept.
    assert!(engine.process_transaction(withdrawal(1, 2, "1")).is_ok());
    assert!(engine.process_transaction(deposit(1, 3, "1")).is_ok());
    assert!(engine.process_transaction(dispute(1, 1)).is_ok());
    assert_eq!(rows(&engine), vec!["1,0,79228162514264337593543950335,79228162514264337593543950335,false"]);
    assert_eq!(refused(engine.process_transaction(deposit(1, 5, "1"))), "Amount out of range");
    assert!(engine.process_transaction(resolve(1, 1)).is_ok());
    assert_eq!(rows(&engine), vec!["1,79228162514264337593543950335,0,79228162514264337593543950335,false"]);
}

#[test]
fn a_log_is_replayed_in_order_and_rejections_do_not_stop_it() {
    let log = vec![
        deposit(1, 1, "1.0"),
        deposit(2, 2, "2.0"),
        deposit(1, 3, "2.0"),
        withdrawal(1, 4, "1.5"),
        withdrawal(2, 5, "3.0"),
        deposit(2, 2, "9.0"),
        dispute(2, 2),
        dispute(1, 99),
    ];
    let mut engine = TransactionEngine::new();
    let outcomes = engine.process_transactions(&log);
    assert_eq!(outcomes.len(), log.len());
    let applied: Vec<bool> = outcomes.iter().map(|outcome| outcome.is_ok()).collect();
    assert_eq!(applied, vec![true, true, true, true, false, false, true, false]);
    assert_eq!(rows(&engine), vec!["1,1.5,0,1.5,false", "2,0.0,2.0,2.0,false"]);
}

#[test]
fn run_reports_balances_and_outcomes() {
    let log = vec![
        deposit(2, 1, "10.0"),
        deposit(1, 2, "3.33335"),
        withdrawal(1, 3, "10"),
        dispute(2, 1),
        chargeback(2, 1),
        deposit(2, 4, "1.0"),
        Transaction { transaction_type: TransactionType::Deposit, client: 3, tx: 5, amount: None },
    ];
    let report = run(&log);
    let balances: Vec<String> = report.balances.iter().map(row).collect();
    assert_eq!(balances, vec!["1,3.3334,0,3.3334,false", "2,0.0,0.0,0.0,true"]);
    assert_eq!(report.outcomes.len(), 7);
    let texts: Vec<String> = report
        .outcomes
        .iter()
        .map(|outcome| match outcome {
            Ok(()) => String::from("applied"),
            Err(err) => err.to_string(),
        })
        .collect();
    assert_eq!(
        texts,
        vec![
            "applied",
            "applied",
            "Account error: Insufficient funds",
            "applied",
            "applied",
            "Account error: Account is locked",
            "Invalid transaction: Deposit and withdrawal transactions must have an amount",
        ]
    );
}

#[test]
fn run_of_an_empty_log() {
    let report = run(&Vec::new());
    assert!(report.balances.is_empty());
    assert!(report.outcomes.is_empty());
}

#[test]
fn errors_are_described_in_one_line() {
    assert_eq!(
        EngineError::InvalidTransaction(String::from("no amount")).to_string(),
        "Invalid transaction: no amount"
    );
    assert_eq!(
        EngineError::AccountError(String::from("Account not found")).to_string(),
        "Account error: Account not found"
    );
}

#[test]
fn account_errors_become_engine_errors() {
    for (error, text) in [
        (AccountError::AccountLocked, "Account is locked"),
        (AccountError::InsufficientFunds, "Insufficient funds"),
        (AccountError::TransactionAlreadyDisputed, "Transaction already disputed"),
        (AccountError::TransactionNotDisputed, "Transaction not disputed"),
    ] {
        assert_eq!(refused(Err(EngineError::from(error))), text);
    }
}

#[test]
fn kinds_of_records() {
    assert!(deposit(1, 1, "1").requires_amount());
    assert!(withdrawal(1, 1, "1").requires_amount());
    assert!(!dispute(1, 1).requires_amount());
    assert!(!resolve(1, 1).requires_amount());
    assert!(!chargeback(1, 1).requires_amount());
    assert!(!deposit(1, 1, "1").is_dispute_related());
    assert!(!withdrawal(1, 1, "1").is_dispute_related());
    assert!(dispute(1, 1).is_dispute_related());
    assert!(resolve(1, 1).is_dispute_related());
    assert!(chargeback(1, 1).is_dispute_related());
}

#[test]
fn a_log_can_be_replayed_in_parts() {
    let log = vec![
        deposit(1, 1, "10.5"),
        deposit(2, 2, "0.25"),
        withdrawal(1, 3, "4"),
        dispute(2, 2),
        deposit(1, 1, "3"),
        chargeback(2, 2),
        deposit(3, 4, "7.0001"),
        resolve(1, 1),
    ];
    let mut whole = TransactionEngine::new();
    let outcomes = whole.process_transactions(&log);
    for cut in 0..=log.len() {
        let mut parts = TransactionEngine::new();
        let mut seen = parts.process_transactions(&log[..cut].to_vec());
        seen.extend(parts.process_transactions(&log[cut..].to_vec()));
        assert_eq!(parts.account_balances(), whole.account_balances());
        let applied: Vec<bool> = seen.iter().map(|outcome| outcome.is_ok()).collect();
        let expected: Vec<bool> = outcomes.iter().map(|outcome| outcome.is_ok()).collect();
        assert_eq!(applied, expected);
    }
    assert_eq!(
        rows(&whole),
        vec!["1,6.5,0,6.5,false", "2,0.00,0.00,0.00,true", "3,7.0001,0,7.0001,false"]
    );
}

#[test]
fn accounts_and_history_are_never_dropped() {
    let mut engine = TransactionEngine::new();
    assert!(engine.process_transaction(deposit(1, 1, "10")).is_ok());
    assert!(engine.process_transaction(withdrawal(1, 2, "10")).is_ok());
    assert!(engine.process_transaction(dispute(1, 1)).is_ok());
    assert!(engine.process_transaction(chargeback(1, 1)).is_ok());
    // The emptied, locked account is still reported ...
    assert_eq!(rows(&engine), vec!["1,0,0,0,true"]);
    // ... and the ids of its transactions are still taken.
    assert_eq!(
        invalid(engine.process_transaction(deposit(2, 1, "1"))),
        "Duplicate transaction ID: 1"
    );
    assert_eq!(
        invalid(engine.process_transaction(deposit(2, 2, "1"))),
        "Duplicate transaction ID: 2"
    );
}
