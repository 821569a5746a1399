//! A ledger engine that replays a log of deposits, withdrawals, disputes,
//! resolutions and chargebacks against the accounts of its clients, and reports
//! the balances that result.
//!
//! - [`amount`]: decimal amounts.
//! - [`account`]: the account of a client and the operations on it.
//! - [`transaction`]: the records of the log.
//! - [`engine`]: validation of records and their dispatch to accounts.
//! - [`engine_error`]: why a record is rejected.
//! - [`text`]: numbers in the messages of errors.

pub mod account;
pub mod amount;
pub mod engine;
pub mod engine_error;
pub mod text;
pub mod transaction;

use crate::account::AccountSnapshot;
use crate::engine::{EngineState, TransactionEngine};
use crate::engine_error::{rejection_of, EngineError};
use crate::transaction::Transaction;
use vstd::prelude::*;

verus! {

/// What a run gives: the balances to report, and the outcome of each record.
#[derive(Debug)]
pub struct Report {
    /// One row for each account, by ascending client.
    pub balances: Vec<AccountSnapshot>,
    /// For each record of the log, in order, whether it was applied or why not.
    pub outcomes: Vec<Result<(), EngineError>>,
}

/// Replays a log against a fresh engine and reports the balances that result.
/// Rejected records are skipped and listed with their reasons.
pub fn run(transactions: &Vec<Transaction>) -> (report: Report)
    requires
        forall|i: int| 0 <= i < transactions.len() ==> (#[trigger] transactions[i]).wf(),
    ensures
        report.balances@ == EngineState::empty().replay(transactions@).balances(),
        forall|i: int| 0 <= i < report.balances.len() ==> (#[trigger] report.balances[i]).wf(),
        report.outcomes.len() == transactions.len(),
        forall|i: int|
            0 <= i < transactions.len() ==> rejection_of(#[trigger] report.outcomes[i])
                == EngineState::empty().replay(transactions@.take(i)).step(transactions[i]).0,
{
    let mut engine = TransactionEngine::new();
    let outcomes = engine.process_transactions(transactions);
    let balances = engine.account_balances();
    Report { balances, outcomes }
}

} // verus!
