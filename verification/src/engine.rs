//! The engine: it checks each record of the log against the rules and the
//! records before it, and applies it to the account of its client.

use crate::account::{
    lemma_chargeback_wf, lemma_deposit_wf, lemma_dispute_wf, lemma_empty_wf, lemma_resolve_wf,
    lemma_withdraw_wf, Account, AccountError, AccountSnapshot, AccountState,
};
use crate::amount::{lemma_sign, Amount};
use crate::engine_error::{rejection_of, EngineError, Rejection};
use crate::text::{append_decimal, decimal_text};
use crate::transaction::{Transaction, TransactionType};
use std::collections::HashMap;
use vstd::prelude::*;
use vstd::string::StringExecFns;

verus! {

broadcast use vstd::std_specs::hash::group_hash_axioms;

/// Reason given to a deposit or withdrawal without an amount.
pub open spec fn missing_amount_text() -> Seq<char> {
    "Deposit and withdrawal transactions must have an amount"@
}

/// Reason given to a dispute, resolution or chargeback with an amount.
pub open spec fn unexpected_amount_text() -> Seq<char> {
    "Dispute, resolve, and chargeback transactions should not have an amount"@
}

/// Reason given to an amount that is zero or negative.
pub open spec fn not_positive_text() -> Seq<char> {
    "Transaction amount must be positive"@
}

/// Reason given to a deposit or withdrawal whose id was used before.
pub open spec fn duplicate_id_text(tx: u32) -> Seq<char> {
    "Duplicate transaction ID: "@ + decimal_text(tx as nat)
}

/// Reason given to a record that refers to a transaction that is not known.
pub open spec fn unknown_transaction_text(kind: TransactionType, tx: u32) -> Seq<char> {
    (match kind {
        TransactionType::Dispute => "Cannot dispute non-existent transaction: "@,
        TransactionType::Resolve => "Cannot resolve non-existent transaction: "@,
        _ => "Cannot chargeback non-existent transaction: "@,
    }) + decimal_text(tx as nat)
}

/// Reason given to a record that refers to a transaction of another client.
pub open spec fn other_client_text(kind: TransactionType) -> Seq<char> {
    match kind {
        TransactionType::Dispute => "Cannot dispute transaction from different client"@,
        TransactionType::Resolve => "Cannot resolve transaction from different client"@,
        _ => "Cannot chargeback transaction from different client"@,
    }
}

/// Reason given to a dispute of a withdrawal.
pub open spec fn not_a_deposit_text() -> Seq<char> {
    "Only deposit transactions can be disputed"@
}

/// Reason given where the client of a record has no account.
pub open spec fn account_not_found_text() -> Seq<char> {
    "Account not found"@
}

/// Reason given where a balance would leave the range of a decimal.
pub open spec fn out_of_range_text() -> Seq<char> {
    "Amount out of range"@
}

/// What the engine knows: the account of each client seen so far, and every
/// deposit and withdrawal that was applied, by its transaction id.
pub struct EngineState {
    pub accounts: Map<u16, AccountState>,
    pub history: Map<u32, Transaction>,
}

impl EngineState {
    /// Each account keeps its invariant and is filed under its client. Each
    /// transaction of the history is a deposit or a withdrawal of a positive
    /// amount, filed under its id, and its client has an account.
    pub open spec fn wf(self) -> bool {
        &&& forall|client: u16| #[trigger]
            self.accounts.contains_key(client) ==> self.accounts[client].wf()
                && self.accounts[client].client == client
        &&& forall|tx: u32| #[trigger]
            self.history.contains_key(tx) ==> {
                &&& self.history[tx].tx == tx
                &&& self.history[tx].moves_funds()
                &&& self.history[tx].amount is Some
                &&& self.history[tx].amount.unwrap().wf()
                &&& self.history[tx].amount.unwrap()@ > 0
                &&& self.accounts.contains_key(self.history[tx].client)
            }
    }

    /// Nothing seen yet.
    pub open spec fn empty() -> EngineState {
        EngineState { accounts: Map::empty(), history: Map::empty() }
    }

    /// The first rule that `t` breaks, if any: a deposit or withdrawal has an
    /// amount and the others have none; an amount is positive; the id of a
    /// deposit or withdrawal is new.
    pub open spec fn validate(self, t: Transaction) -> Option<Rejection> {
        if t.moves_funds() && t.amount is None {
            Some(Rejection::InvalidTransaction(missing_amount_text()))
        } else if t.refers_to_dispute() && t.amount is Some {
            Some(Rejection::InvalidTransaction(unexpected_amount_text()))
        } else if t.amount is Some && t.amount.unwrap()@ <= 0 {
            Some(Rejection::InvalidTransaction(not_positive_text()))
        } else if t.moves_funds() && self.history.contains_key(t.tx) {
            Some(Rejection::InvalidTransaction(duplicate_id_text(t.tx)))
        } else {
            None
        }
    }

    /// The account of `client`: the one on file, or a new one.
    pub open spec fn account_of(self, client: u16) -> AccountState {
        if self.accounts.contains_key(client) {
            self.accounts[client]
        } else {
            AccountState::empty(client)
        }
    }

    /// The state once the account of `client` is `account`.
    pub open spec fn with_account(self, client: u16, account: AccountState) -> EngineState {
        EngineState { accounts: self.accounts.insert(client, account), ..self }
    }

    /// A valid deposit or withdrawal `t` whose outcome on the account of its
    /// client is `outcome`. The account is on file afterwards, also where it
    /// was new and refused; `t` enters the history only where it was applied.
    pub open spec fn moved(self, t: Transaction, outcome: (Result<(), AccountError>, AccountState)) -> (
        Option<Rejection>,
        EngineState,
    ) {
        match outcome.0 {
            Ok(_) => (
                None,
                EngineState {
                    accounts: self.accounts.insert(t.client, outcome.1),
                    history: self.history.insert(t.tx, t),
                },
            ),
            Err(err) => (
                Some(Rejection::of_account(err)),
                self.with_account(t.client, self.account_of(t.client)),
            ),
        }
    }

    /// A valid deposit.
    pub open spec fn deposit(self, t: Transaction) -> (Option<Rejection>, EngineState) {
        let account = self.account_of(t.client);
        if !account.deposit_fits(t.amount.unwrap()) {
            (
                Some(Rejection::AccountError(out_of_range_text())),
                self.with_account(t.client, account),
            )
        } else {
            self.moved(t, account.deposit(t.amount.unwrap()))
        }
    }

    /// A valid withdrawal.
    pub open spec fn withdraw(self, t: Transaction) -> (Option<Rejection>, EngineState) {
        let account = self.account_of(t.client);
        if !account.withdraw_fits(t.amount.unwrap()) {
            (
                Some(Rejection::AccountError(out_of_range_text())),
                self.with_account(t.client, account),
            )
        } else {
            self.moved(t, account.withdraw(t.amount.unwrap()))
        }
    }

    /// What keeps a dispute, resolution or chargeback `t` from reaching an
    /// account, if anything: the transaction it names is not in the history, or
    /// is of another client, or, for a dispute, is no deposit.
    pub open spec fn reference(self, t: Transaction) -> Option<Rejection> {
        if !self.history.contains_key(t.tx) {
            Some(Rejection::InvalidTransaction(unknown_transaction_text(t.transaction_type, t.tx)))
        } else if self.history[t.tx].client != t.client {
            Some(Rejection::InvalidTransaction(other_client_text(t.transaction_type)))
        } else if t.transaction_type is Dispute && !(self.history[t.tx].transaction_type is Deposit) {
            Some(Rejection::InvalidTransaction(not_a_deposit_text()))
        } else if !self.accounts.contains_key(t.client) {
            Some(Rejection::AccountError(account_not_found_text()))
        } else {
            None
        }
    }

    /// A dispute, resolution or chargeback whose outcome on the account of
    /// `client` is `outcome`.
    pub open spec fn settled(self, client: u16, outcome: (Result<(), AccountError>, AccountState)) -> (
        Option<Rejection>,
        EngineState,
    ) {
        match outcome.0 {
            Ok(_) => (None, self.with_account(client, outcome.1)),
            Err(err) => (Some(Rejection::of_account(err)), self),
        }
    }

    /// A valid dispute: of the amount that the history has for the transaction.
    pub open spec fn dispute(self, t: Transaction) -> (Option<Rejection>, EngineState) {
        let amount = self.history[t.tx].amount.unwrap();
        if self.reference(t) is Some {
            (self.reference(t), self)
        } else if !self.accounts[t.client].dispute_fits(amount, t.tx) {
            (Some(Rejection::AccountError(out_of_range_text())), self)
        } else {
            self.settled(t.client, self.accounts[t.client].dispute(amount, t.tx))
        }
    }

    /// A valid resolution.
    pub open spec fn resolve(self, t: Transaction) -> (Option<Rejection>, EngineState) {
        if self.reference(t) is Some {
            (self.reference(t), self)
        } else if !self.accounts[t.client].resolve_fits(t.tx) {
            (Some(Rejection::AccountError(out_of_range_text())), self)
        } else {
            self.settled(t.client, self.accounts[t.client].resolve(t.tx))
        }
    }

    /// A valid chargeback.
    pub open spec fn chargeback(self, t: Transaction) -> (Option<Rejection>, EngineState) {
        if self.reference(t) is Some {
            (self.reference(t), self)
        } else if !self.accounts[t.client].chargeback_fits(t.tx) {
            (Some(Rejection::AccountError(out_of_range_text())), self)
        } else {
            self.settled(t.client, self.accounts[t.client].chargeback(t.tx))
        }
    }

    /// One record: rejected where it breaks a rule, else handed to the account
    /// of its client. Gives the rejection, if any, and the state afterwards.
    pub open spec fn step(self, t: Transaction) -> (Option<Rejection>, EngineState) {
        if self.validate(t) is Some {
            (self.validate(t), self)
        } else {
            match t.transaction_type {
                TransactionType::Deposit => self.deposit(t),
                TransactionType::Withdrawal => self.withdraw(t),
                TransactionType::Dispute => self.dispute(t),
                TransactionType::Resolve => self.resolve(t),
                TransactionType::Chargeback => self.chargeback(t),
            }
        }
    }

    /// The state after the records of `log`, in their order.
    pub open spec fn replay(self, log: Seq<Transaction>) -> EngineState
        decreases log.len(),
    {
        if log.len() == 0 {
            self
        } else {
            self.replay(log.drop_last()).step(log.last()).1
        }
    }

    /// What is reported of the accounts of the clients below `bound`, by
    /// ascending client.
    pub open spec fn balances_below(self, bound: nat) -> Seq<AccountSnapshot>
        decreases bound,
    {
        if bound == 0 {
            Seq::empty()
        } else {
            let client = (bound - 1) as u16;
            if self.accounts.contains_key(client) {
                self.balances_below((bound - 1) as nat).push(self.accounts[client].snapshot())
            } else {
                self.balances_below((bound - 1) as nat)
            }
        }
    }

    /// What is reported: every account, by ascending client.
    pub open spec fn balances(self) -> Seq<AccountSnapshot> {
        self.balances_below(0x1_0000)
    }
}

/// The records that pass validation: deposits and withdrawals of a positive
/// amount under a new id, and disputes, resolutions and chargebacks without an
/// amount.
pub proof fn lemma_validate_accepts(s: EngineState, t: Transaction)
    ensures
        s.validate(t) is None <==> (if t.moves_funds() {
            t.amount is Some && t.amount.unwrap()@ > 0 && !s.history.contains_key(t.tx)
        } else {
            t.amount is None
        }),
{
}

/// In a well-formed engine the client of a known transaction has an account:
/// a dispute, resolution or chargeback is kept from its account only by what
/// makes it an invalid transaction.
pub proof fn lemma_reference_finds_account(s: EngineState, t: Transaction)
    requires
        s.wf(),
    ensures
        s.reference(t) matches Some(rejection) ==> rejection is InvalidTransaction,
{
}

/// Every record, applied or rejected, leaves the engine well formed: each
/// account still has `total == available + held` with neither part negative,
/// and the history still holds only applied deposits and withdrawals.
pub proof fn lemma_step_wf(s: EngineState, t: Transaction)
    requires
        s.wf(),
        t.wf(),
    ensures
        s.step(t).1.wf(),
{
    if s.validate(t) is None {
        let account = s.account_of(t.client);
        lemma_empty_wf(t.client);
        match t.transaction_type {
            TransactionType::Deposit => {
                if account.deposit_fits(t.amount.unwrap()) {
                    lemma_deposit_wf(account, t.amount.unwrap());
                }
            },
            TransactionType::Withdrawal => {
                if account.withdraw_fits(t.amount.unwrap()) {
                    lemma_withdraw_wf(account, t.amount.unwrap());
                }
            },
            TransactionType::Dispute => {
                if s.reference(t) is None {
                    let amount = s.history[t.tx].amount.unwrap();
                    if account.dispute_fits(amount, t.tx) {
                        lemma_dispute_wf(account, amount, t.tx);
                    }
                }
            },
            TransactionType::Resolve => {
                if s.reference(t) is None && account.resolve_fits(t.tx) {
                    lemma_resolve_wf(account, t.tx);
                }
            },
            TransactionType::Chargeback => {
                if s.reference(t) is None && account.chargeback_fits(t.tx) {
                    lemma_chargeback_wf(account, t.tx);
                }
            },
        }
    }
}

/// A log of records leaves the engine well formed.
pub proof fn lemma_replay_wf(s: EngineState, log: Seq<Transaction>)
    requires
        s.wf(),
        forall|i: int| 0 <= i < log.len() ==> (#[trigger] log[i]).wf(),
    ensures
        s.replay(log).wf(),
    decreases log.len(),
{
    if log.len() > 0 {
        lemma_replay_wf(s, log.drop_last());
        lemma_step_wf(s.replay(log.drop_last()), log.last());
    }
}

/// A log can be replayed in parts: the records of `first`, then those of
/// `second`, give what the joined log gives.
pub proof fn lemma_replay_in_parts(s: EngineState, first: Seq<Transaction>, second: Seq<Transaction>)
    ensures
        s.replay(first + second) == s.replay(first).replay(second),
    decreases second.len(),
{
    if second.len() > 0 {
        lemma_replay_in_parts(s, first, second.drop_last());
        assert((first + second).drop_last() =~= first + second.drop_last());
    }
}

/// A rejected record changes nothing that was there: the history and every
/// account on file stay as they were. At most the client of a rejected
/// withdrawal gets an account, with no funds in it.
pub proof fn lemma_rejected_step(s: EngineState, t: Transaction)
    requires
        s.wf(),
        t.wf(),
        s.step(t).0 is Some,
    ensures
        s.step(t).1.history == s.history,
        forall|client: u16| #[trigger]
            s.accounts.contains_key(client) ==> s.step(t).1.accounts.contains_key(client)
                && s.step(t).1.accounts[client] == s.accounts[client],
        forall|client: u16| #[trigger]
            s.step(t).1.accounts.contains_key(client) && !s.accounts.contains_key(client) ==> client
                == t.client && t.transaction_type is Withdrawal && s.step(t).1.accounts[client]
                == AccountState::empty(client),
{
}

/// Nothing is forgotten: a record removes no account from the file and no
/// transaction from the history, and changes no transaction there.
pub proof fn lemma_step_keeps_records(s: EngineState, t: Transaction)
    ensures
        forall|client: u16| #[trigger]
            s.accounts.contains_key(client) ==> s.step(t).1.accounts.contains_key(client),
        forall|tx: u32| #[trigger]
            s.history.contains_key(tx) ==> s.step(t).1.history.contains_key(tx) && s.step(
                t,
            ).1.history[tx] == s.history[tx],
{
}

/// The rows for the clients below `bound`: each is the snapshot of an account
/// on file whose client is below `bound`, every such account has a row, and
/// the clients of the rows ascend.
pub proof fn lemma_balances_below(s: EngineState, bound: nat)
    requires
        s.wf(),
        bound <= 0x1_0000,
    ensures
        forall|i: int|
            0 <= i < s.balances_below(bound).len() ==> {
                let row = #[trigger] s.balances_below(bound)[i];
                &&& row.client < bound
                &&& s.accounts.contains_key(row.client)
                &&& row == s.accounts[row.client].snapshot()
            },
        forall|i: int, j: int|
            0 <= i < j < s.balances_below(bound).len() ==> (#[trigger] s.balances_below(
                bound,
            )[i]).client < (#[trigger] s.balances_below(bound)[j]).client,
        forall|client: u16|
            client < bound && #[trigger] s.accounts.contains_key(client) ==> exists|i: int|
                0 <= i < s.balances_below(bound).len() && (#[trigger] s.balances_below(
                    bound,
                )[i]).client == client,
    decreases bound,
{
    if bound > 0 {
        let below = s.balances_below((bound - 1) as nat);
        let rows = s.balances_below(bound);
        let last = (bound - 1) as u16;
        lemma_balances_below(s, (bound - 1) as nat);
        assert forall|client: u16| client < bound && #[trigger] s.accounts.contains_key(
            client,
        ) implies exists|i: int|
            0 <= i < rows.len() && (#[trigger] rows[i]).client == client by {
            if client == last {
                assert(rows[rows.len() - 1].client == client);
            } else {
                let i = choose|i: int| 0 <= i < below.len() && (#[trigger] below[i]).client == client;
                assert(rows[i].client == client);
            }
        }
    }
}

/// The balances reported are those of the accounts on file, one row for each
/// account, rounded, in strictly ascending order of client.
pub proof fn lemma_balances(s: EngineState)
    requires
        s.wf(),
    ensures
        forall|i: int|
            0 <= i < s.balances().len() ==> {
                let row = #[trigger] s.balances()[i];
                &&& s.accounts.contains_key(row.client)
                &&& row == s.accounts[row.client].snapshot()
            },
        forall|i: int, j: int|
            0 <= i < j < s.balances().len() ==> (#[trigger] s.balances()[i]).client < (
            #[trigger] s.balances()[j]).client,
        forall|client: u16| #[trigger]
            s.accounts.contains_key(client) ==> exists|i: int|
                0 <= i < s.balances().len() && (#[trigger] s.balances()[i]).client == client,
{
    lemma_balances_below(s, 0x1_0000);
    let rows = s.balances_below(0x1_0000);
    assert forall|client: u16| #[trigger] s.accounts.contains_key(client) implies exists|i: int|
        0 <= i < s.balances().len() && (#[trigger] s.balances()[i]).client == client by {
        let i = choose|i: int| 0 <= i < rows.len() && (#[trigger] rows[i]).client == client;
        assert(s.balances()[i].client == client);
    }
}

/// The engine that replays a log.
#[derive(Debug)]
pub struct TransactionEngine {
    accounts: HashMap<u16, Account>,
    transaction_history: HashMap<u32, Transaction>,
}

impl View for TransactionEngine {
    type V = EngineState;

    closed spec fn view(&self) -> EngineState {
        EngineState {
            accounts: self.accounts@.map_values(|account: Account| account@),
            history: self.transaction_history@,
        }
    }
}

impl TransactionEngine {
    /// The invariant of [`EngineState::wf`].
    pub open spec fn wf(&self) -> bool {
        self@.wf()
    }

    /// An engine that has seen nothing yet.
    pub fn new() -> (r: TransactionEngine)
        ensures
            r@ == EngineState::empty(),
            r.wf(),
    {
        let r = TransactionEngine { accounts: HashMap::new(), transaction_history: HashMap::new() };
        assert(r@.accounts =~= Map::empty());
        r
    }

    /// Checks a record against the rules that need no account.
    pub fn validate_transaction(&self, transaction: &Transaction) -> (r: Result<(), EngineError>)
        requires
            transaction.wf(),
        ensures
            rejection_of(r) == self@.validate(*transaction),
    {
        // A deposit or withdrawal needs an amount.
        if transaction.requires_amount() && transaction.amount.is_none() {
            return Err(
                EngineError::InvalidTransaction(
                    String::from_str("Deposit and withdrawal transactions must have an amount"),
                ),
            );
        }
        // The others must not have one.
        if transaction.is_dispute_related() && transaction.amount.is_some() {
            return Err(
                EngineError::InvalidTransaction(
                    String::from_str(
                        "Dispute, resolve, and chargeback transactions should not have an amount",
                    ),
                ),
            );
        }
        if let Some(amount) = transaction.amount {
            if amount.le(Amount::zero()) {
                return Err(
                    EngineError::InvalidTransaction(
                        String::from_str("Transaction amount must be positive"),
                    ),
                );
            }
        }
        // The id of a deposit or withdrawal must be new.
        if transaction.requires_amount() && self.transaction_history.contains_key(&transaction.tx) {
            let mut reason = String::from_str("Duplicate transaction ID: ");
            append_decimal(&mut reason, transaction.tx);
            return Err(EngineError::InvalidTransaction(reason));
        }
        Ok(())
    }

    fn process_deposit(&mut self, transaction: &Transaction) -> (r: Result<(), EngineError>)
        requires
            old(self).wf(),
            transaction.wf(),
            transaction.transaction_type is Deposit,
            old(self)@.validate(*transaction) is None,
        ensures
            (rejection_of(r), final(self)@) == old(self)@.deposit(*transaction),
    {
        let amount = transaction.amount.unwrap();
        proof {
            lemma_empty_wf(transaction.client);
        }
        let account = self.accounts.entry(transaction.client).or_insert(
            Account::new(transaction.client),
        );
        assert(account@ == old(self)@.account_of(transaction.client));
        if !account.can_deposit(amount) {
            assert(self@.accounts =~= old(self)@.deposit(*transaction).1.accounts);
            return Err(EngineError::AccountError(String::from_str("Amount out of range")));
        }
        let outcome = account.deposit(amount);
        assert(self@.accounts =~= old(self)@.deposit(*transaction).1.accounts);
        match outcome {
            Ok(()) => {
                // Keep the deposit: a dispute may name it later.
                self.transaction_history.insert(transaction.tx, *transaction);
                Ok(())
            },
            Err(err) => Err(EngineError::from(err)),
        }
    }

    fn process_withdrawal(&mut self, transaction: &Transaction) -> (r: Result<(), EngineError>)
        requires
            old(self).wf(),
            transaction.wf(),
            transaction.transaction_type is Withdrawal,
            old(self)@.validate(*transaction) is None,
        ensures
            (rejection_of(r), final(self)@) == old(self)@.withdraw(*transaction),
    {
        let amount = transaction.amount.unwrap();
        proof {
            lemma_empty_wf(transaction.client);
        }
        let account = self.accounts.entry(transaction.client).or_insert(
            Account::new(transaction.client),
        );
        assert(account@ == old(self)@.account_of(transaction.client));
        if !account.can_withdraw(amount) {
            assert(self@.accounts =~= old(self)@.withdraw(*transaction).1.accounts);
            return Err(EngineError::AccountError(String::from_str("Amount out of range")));
        }
        let outcome = account.withdraw(amount);
        assert(self@.accounts =~= old(self)@.withdraw(*transaction).1.accounts);
        match outcome {
            Ok(()) => {
                // Keep the withdrawal: its id is taken from now on.
                self.transaction_history.insert(transaction.tx, *transaction);
                Ok(())
            },
            Err(err) => Err(EngineError::from(err)),
        }
    }

    fn process_dispute(&mut self, transaction: &Transaction) -> (r: Result<(), EngineError>)
        requires
            old(self).wf(),
            transaction.transaction_type is Dispute,
        ensures
            (rejection_of(r), final(self)@) == old(self)@.dispute(*transaction),
    {
        // Find the transaction under dispute.
        let named = match self.transaction_history.get(&transaction.tx) {
            Some(named) => *named,
            None => {
                let mut reason = String::from_str("Cannot dispute non-existent transaction: ");
                append_decimal(&mut reason, transaction.tx);
                return Err(EngineError::InvalidTransaction(reason));
            },
        };
        if named.client != transaction.client {
            return Err(
                EngineError::InvalidTransaction(
                    String::from_str("Cannot dispute transaction from different client"),
                ),
            );
        }
        // Only deposits can be disputed.
        match named.transaction_type {
            TransactionType::Deposit => {},
            _ => {
                return Err(
                    EngineError::InvalidTransaction(
                        String::from_str("Only deposit transactions can be disputed"),
                    ),
                );
            },
        }
        let amount = named.amount.unwrap();
        let mut account = match self.accounts.remove(&transaction.client) {
            Some(account) => account,
            None => {
                return Err(EngineError::AccountError(String::from_str("Account not found")));
            },
        };
        if !account.can_dispute(amount, transaction.tx) {
            self.accounts.insert(transaction.client, account);
            assert(self@.accounts =~= old(self)@.accounts);
            return Err(EngineError::AccountError(String::from_str("Amount out of range")));
        }
        proof {
            lemma_sign(amount);
        }
        let outcome = account.dispute(amount, transaction.tx);
        self.accounts.insert(transaction.client, account);
        assert(self@.accounts =~= old(self)@.dispute(*transaction).1.accounts);
        match outcome {
            Ok(()) => Ok(()),
            Err(err) => Err(EngineError::from(err)),
        }
    }

    fn process_resolve(&mut self, transaction: &Transaction) -> (r: Result<(), EngineError>)
        requires
            old(self).wf(),
            transaction.transaction_type is Resolve,
        ensures
            (rejection_of(r), final(self)@) == old(self)@.resolve(*transaction),
    {
        // Find the transaction under dispute.
        let named = match self.transaction_history.get(&transaction.tx) {
            Some(named) => *named,
            None => {
                let mut reason = String::from_str("Cannot resolve non-existent transaction: ");
                append_decimal(&mut reason, transaction.tx);
                return Err(EngineError::InvalidTransaction(reason));
            },
        };
        if named.client != transaction.client {
            return Err(
                EngineError::InvalidTransaction(
                    String::from_str("Cannot resolve transaction from different client"),
                ),
            );
        }
        let mut account = match self.accounts.remove(&transaction.client) {
            Some(account) => account,
            None => {
                return Err(EngineError::AccountError(String::from_str("Account not found")));
            },
        };
        if !account.can_resolve(transaction.tx) {
            self.accounts.insert(transaction.client, account);
            assert(self@.accounts =~= old(self)@.accounts);
            return Err(EngineError::AccountError(String::from_str("Amount out of range")));
        }
        let outcome = account.resolve(transaction.tx);
        self.accounts.insert(transaction.client, account);
        assert(self@.accounts =~= old(self)@.resolve(*transaction).1.accounts);
        match outcome {
            Ok(()) => Ok(()),
            Err(err) => Err(EngineError::from(err)),
        }
    }

    fn process_chargeback(&mut self, transaction: &Transaction) -> (r: Result<(), EngineError>)
        requires
            old(self).wf(),
            transaction.transaction_type is Chargeback,
        ensures
            (rejection_of(r), final(self)@) == old(self)@.chargeback(*transaction),
    {
        // Find the transaction under dispute.
        let named = match self.transaction_history.get(&transaction.tx) {
            Some(named) => *named,
            None => {
                let mut reason = String::from_str("Cannot chargeback non-existent transaction: ");
                append_decimal(&mut reason, transaction.tx);
                return Err(EngineError::InvalidTransaction(reason));
            },
        };
        if named.client != transaction.client {
            return Err(
                EngineError::InvalidTransaction(
                    String::from_str("Cannot chargeback transaction from different client"),
                ),
            );
        }
        let mut account = match self.accounts.remove(&transaction.client) {
            Some(account) => account,
            None => {
                return Err(EngineError::AccountError(String::from_str("Account not found")));
            },
        };
        if !account.can_chargeback(transaction.tx) {
            self.accounts.insert(transaction.client, account);
            assert(self@.accounts =~= old(self)@.accounts);
            return Err(EngineError::AccountError(String::from_str("Amount out of range")));
        }
        let outcome = account.chargeback(transaction.tx);
        self.accounts.insert(transaction.client, account);
        assert(self@.accounts =~= old(self)@.chargeback(*transaction).1.accounts);
        match outcome {
            Ok(()) => Ok(()),
            Err(err) => Err(EngineError::from(err)),
        }
    }

    /// Processes one record. A record that is rejected comes back as an error
    /// that says why, and changes no balance and no history: at most, a
    /// rejected withdrawal leaves its client with a new, empty account. The
    /// next record can follow either way.
    pub fn process_transaction(&mut self, transaction: Transaction) -> (r: Result<(), EngineError>)
        requires
            old(self).wf(),
            transaction.wf(),
        ensures
            (rejection_of(r), final(self)@) == old(self)@.step(transaction),
            final(self).wf(),
    {
        proof {
            lemma_step_wf(self@, transaction);
        }
        match self.validate_transaction(&transaction) {
            Ok(()) => {},
            Err(err) => {
                return Err(err);
            },
        }
        match transaction.transaction_type {
            TransactionType::Deposit => self.process_deposit(&transaction),
            TransactionType::Withdrawal => self.process_withdrawal(&transaction),
            TransactionType::Dispute => self.process_dispute(&transaction),
            TransactionType::Resolve => self.process_resolve(&transaction),
            TransactionType::Chargeback => self.process_chargeback(&transaction),
        }
    }

    /// Processes the records of a log in their order. Gives the outcome of each
    /// record, in the same order: rejected records do not stop the log.
    pub fn process_transactions(&mut self, transactions: &Vec<Transaction>) -> (outcomes: Vec<
        Result<(), EngineError>,
    >)
        requires
            old(self).wf(),
            forall|i: int| 0 <= i < transactions.len() ==> (#[trigger] transactions[i]).wf(),
        ensures
            final(self).wf(),
            final(self)@ == old(self)@.replay(transactions@),
            outcomes.len() == transactions.len(),
            forall|i: int|
                0 <= i < transactions.len() ==> rejection_of(#[trigger] outcomes[i]) == old(
                    self,
                )@.replay(transactions@.take(i)).step(transactions[i]).0,
    {
        let mut outcomes: Vec<Result<(), EngineError>> = Vec::new();
        let mut done: usize = 0;
        while done < transactions.len()
            invariant
                done <= transactions.len(),
                self.wf(),
                forall|i: int| 0 <= i < transactions.len() ==> (#[trigger] transactions[i]).wf(),
                self@ == old(self)@.replay(transactions@.take(done as int)),
                outcomes.len() == done,
                forall|i: int|
                    0 <= i < done ==> rejection_of(#[trigger] outcomes[i]) == old(self)@.replay(
                        transactions@.take(i),
                    ).step(transactions[i]).0,
            decreases transactions.len() - done,
        {
            let outcome = self.process_transaction(transactions[done]);
            outcomes.push(outcome);
            proof {
                let next = transactions@.take(done + 1);
                assert(next.drop_last() =~= transactions@.take(done as int));
            }
            done = done + 1;
        }
        assert(transactions@.take(done as int) =~= transactions@);
        outcomes
    }

    /// The balances to report: one row for each account, by ascending client,
    /// each amount rounded to four digits after the decimal point. The engine
    /// is not changed.
    pub fn account_balances(&self) -> (rows: Vec<AccountSnapshot>)
        requires
            self.wf(),
        ensures
            rows@ == self@.balances(),
            forall|i: int| 0 <= i < rows.len() ==> (#[trigger] rows[i]).wf(),
    {
        let mut rows: Vec<AccountSnapshot> = Vec::new();
        let mut next: u32 = 0;
        while next < 0x1_0000
            invariant
                next <= 0x1_0000,
                self.wf(),
                rows@ == self@.balances_below(next as nat),
                forall|i: int| 0 <= i < rows.len() ==> (#[trigger] rows[i]).wf(),
            decreases 0x1_0000 - next,
        {
            let client = next as u16;
            match self.accounts.get(&client) {
                Some(account) => {
                    assert(self@.accounts.contains_key(client));
                    rows.push(account.snapshot());
                },
                None => {},
            }
            next = next + 1;
        }
        rows
    }
}

} // verus!
