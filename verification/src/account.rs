//! Client accounts: balances, open disputes and the rules that change them.

use crate::amount::{decimal_add, decimal_sub, lemma_add_exact, lemma_sub_exact, Amount};
use std::collections::HashMap;
use vstd::prelude::*;

verus! {

broadcast use vstd::std_specs::hash::group_hash_axioms;

/// Why an account refused an operation.
#[derive(Debug, Clone, Copy, PartialEq, Eq)]
pub enum AccountError {
    AccountLocked,
    InsufficientFunds,
    TransactionAlreadyDisputed,
    TransactionNotDisputed,
}

impl AccountError {
    /// The text of [`AccountError::as_str`].
    pub open spec fn message(self) -> Seq<char> {
        match self {
            AccountError::AccountLocked => "Account is locked"@,
            AccountError::InsufficientFunds => "Insufficient funds"@,
            AccountError::TransactionAlreadyDisputed => "Transaction already disputed"@,
            AccountError::TransactionNotDisputed => "Transaction not disputed"@,
        }
    }

    /// The text that describes this error.
    pub fn as_str(&self) -> (r: &'static str)
        ensures
            r@ == self.message(),
    {
        match self {
            AccountError::AccountLocked => "Account is locked",
            AccountError::InsufficientFunds => "Insufficient funds",
            AccountError::TransactionAlreadyDisputed => "Transaction already disputed",
            AccountError::TransactionNotDisputed => "Transaction not disputed",
        }
    }
}

/// The amounts held by the disputes whose transaction id is below `bound`, added up.
pub open spec fn disputed_below(disputes: Map<u32, Amount>, bound: nat) -> int
    decreases bound,
{
    if bound == 0 {
        0
    } else {
        let tx = (bound - 1) as u32;
        disputed_below(disputes, (bound - 1) as nat) + (if disputes.contains_key(tx) {
            disputes[tx]@
        } else {
            0
        })
    }
}

/// The amounts held by all open disputes, added up.
pub open spec fn disputed_total(disputes: Map<u32, Amount>) -> int {
    disputed_below(disputes, 0x1_0000_0000)
}

/// What an account is: its balances, its lock and its open disputes.
pub struct AccountState {
    pub client: u16,
    pub available: Amount,
    pub held: Amount,
    pub total: Amount,
    pub locked: bool,
    pub disputes: Map<u32, Amount>,
}

impl AccountState {
    /// The balances are decimals, none of `available` and `held` is negative,
    /// `total` is their sum, and `held` is what the open disputes hold together.
    pub open spec fn wf(self) -> bool {
        &&& self.available.wf()
        &&& self.held.wf()
        &&& self.total.wf()
        &&& self.available@ >= 0
        &&& self.held@ >= 0
        &&& self.total@ == self.available@ + self.held@
        &&& forall|tx: u32| #[trigger]
            self.disputes.contains_key(tx) ==> self.disputes[tx].wf() && self.disputes[tx]@ >= 0
        &&& disputed_total(self.disputes) == self.held@
    }

    /// A new account of `client`: no funds, no disputes, not locked.
    pub open spec fn empty(client: u16) -> AccountState {
        AccountState {
            client,
            available: Amount { mantissa: 0, scale: 0 },
            held: Amount { mantissa: 0, scale: 0 },
            total: Amount { mantissa: 0, scale: 0 },
            locked: false,
            disputes: Map::empty(),
        }
    }

    /// Whether the sums of a deposit of `amount` fit.
    pub open spec fn deposit_fits(self, amount: Amount) -> bool {
        self.locked || (self.available.add_fits(amount) && self.total.add_fits(amount))
    }

    /// A deposit: refused on a locked account, else added to `available` and `total`.
    pub open spec fn deposit(self, amount: Amount) -> (Result<(), AccountError>, AccountState) {
        if self.locked {
            (Err(AccountError::AccountLocked), self)
        } else {
            (
                Ok(()),
                AccountState {
                    available: self.available.spec_add(amount),
                    total: self.total.spec_add(amount),
                    ..self
                },
            )
        }
    }

    /// Whether the differences of a withdrawal of `amount` fit.
    pub open spec fn withdraw_fits(self, amount: Amount) -> bool {
        self.locked || self.available@ < amount@ || (self.available.sub_fits(amount)
            && self.total.sub_fits(amount))
    }

    /// A withdrawal: refused on a locked account and where `available` is less
    /// than `amount`, else taken from `available` and `total`.
    pub open spec fn withdraw(self, amount: Amount) -> (Result<(), AccountError>, AccountState) {
        if self.locked {
            (Err(AccountError::AccountLocked), self)
        } else if self.available@ < amount@ {
            (Err(AccountError::InsufficientFunds), self)
        } else {
            (
                Ok(()),
                AccountState {
                    available: self.available.spec_sub(amount),
                    total: self.total.spec_sub(amount),
                    ..self
                },
            )
        }
    }

    /// What a dispute over `amount` holds back: `amount`, or all of `available`
    /// where that is less.
    pub open spec fn disputable(self, amount: Amount) -> Amount {
        if self.available@ < amount@ {
            self.available
        } else {
            amount
        }
    }

    /// Whether the sum and the difference of a dispute over `amount` fit.
    pub open spec fn dispute_fits(self, amount: Amount, tx: u32) -> bool {
        self.locked || self.disputes.contains_key(tx) || (self.available.sub_fits(
            self.disputable(amount),
        ) && self.held.add_fits(self.disputable(amount)))
    }

    /// A dispute of transaction `tx` over `amount`: refused on a locked account
    /// and where `tx` is under dispute already, else what can be held back moves
    /// from `available` to `held` and is recorded under `tx`.
    pub open spec fn dispute(self, amount: Amount, tx: u32) -> (
        Result<(), AccountError>,
        AccountState,
    ) {
        if self.locked {
            (Err(AccountError::AccountLocked), self)
        } else if self.disputes.contains_key(tx) {
            (Err(AccountError::TransactionAlreadyDisputed), self)
        } else {
            (
                Ok(()),
                AccountState {
                    available: self.available.spec_sub(self.disputable(amount)),
                    held: self.held.spec_add(self.disputable(amount)),
                    disputes: self.disputes.insert(tx, self.disputable(amount)),
                    ..self
                },
            )
        }
    }

    /// Whether the sum and the difference of resolving the dispute of `tx` fit.
    pub open spec fn resolve_fits(self, tx: u32) -> bool {
        self.locked || !self.disputes.contains_key(tx) || (self.held.sub_fits(self.disputes[tx])
            && self.available.add_fits(self.disputes[tx]))
    }

    /// Resolving the dispute of `tx`: refused on a locked account and where `tx`
    /// is not under dispute, else what the dispute holds moves back from `held`
    /// to `available` and the dispute is closed.
    pub open spec fn resolve(self, tx: u32) -> (Result<(), AccountError>, AccountState) {
        if self.locked {
            (Err(AccountError::AccountLocked), self)
        } else if !self.disputes.contains_key(tx) {
            (Err(AccountError::TransactionNotDisputed), self)
        } else {
            (
                Ok(()),
                AccountState {
                    available: self.available.spec_add(self.disputes[tx]),
                    held: self.held.spec_sub(self.disputes[tx]),
                    disputes: self.disputes.remove(tx),
                    ..self
                },
            )
        }
    }

    /// Whether the differences of charging back the dispute of `tx` fit.
    pub open spec fn chargeback_fits(self, tx: u32) -> bool {
        !self.disputes.contains_key(tx) || (self.held.sub_fits(self.disputes[tx])
            && self.total.sub_fits(self.disputes[tx]))
    }

    /// Charging back the dispute of `tx`: refused where `tx` is not under
    /// dispute, whether or not the account is locked; else what the dispute
    /// holds leaves `held` and `total`, the dispute is closed and the account is
    /// locked.
    pub open spec fn chargeback(self, tx: u32) -> (Result<(), AccountError>, AccountState) {
        if !self.disputes.contains_key(tx) {
            (Err(AccountError::TransactionNotDisputed), self)
        } else {
            (
                Ok(()),
                AccountState {
                    held: self.held.spec_sub(self.disputes[tx]),
                    total: self.total.spec_sub(self.disputes[tx]),
                    locked: true,
                    disputes: self.disputes.remove(tx),
                    ..self
                },
            )
        }
    }
}

/// No disputes hold nothing.
pub proof fn lemma_disputed_below_empty(bound: nat)
    ensures
        disputed_below(Map::empty(), bound) == 0,
    decreases bound,
{
    if bound > 0 {
        lemma_disputed_below_empty((bound - 1) as nat);
    }
}

/// Opening a dispute adds what it holds to the sum.
pub proof fn lemma_disputed_below_insert(
    disputes: Map<u32, Amount>,
    tx: u32,
    amount: Amount,
    bound: nat,
)
    requires
        !disputes.contains_key(tx),
        bound <= 0x1_0000_0000,
    ensures
        disputed_below(disputes.insert(tx, amount), bound) == disputed_below(disputes, bound) + (
        if tx < bound {
            amount@
        } else {
            0
        }),
    decreases bound,
{
    if bound > 0 {
        lemma_disputed_below_insert(disputes, tx, amount, (bound - 1) as nat);
    }
}

/// Closing a dispute takes what it held from the sum.
pub proof fn lemma_disputed_below_remove(disputes: Map<u32, Amount>, tx: u32, bound: nat)
    requires
        disputes.contains_key(tx),
        bound <= 0x1_0000_0000,
    ensures
        disputed_below(disputes.remove(tx), bound) == disputed_below(disputes, bound) - (
        if tx < bound {
            disputes[tx]@
        } else {
            0
        }),
    decreases bound,
{
    if bound > 0 {
        lemma_disputed_below_remove(disputes, tx, (bound - 1) as nat);
    }
}

/// Where no dispute holds a negative amount, none holds more than the sum.
pub proof fn lemma_disputed_below_covers(disputes: Map<u32, Amount>, tx: u32, bound: nat)
    requires
        forall|t: u32| #[trigger] disputes.contains_key(t) ==> disputes[t]@ >= 0,
        bound <= 0x1_0000_0000,
    ensures
        disputed_below(disputes, bound) >= 0,
        disputes.contains_key(tx) && tx < bound ==> disputes[tx]@ <= disputed_below(disputes, bound),
    decreases bound,
{
    if bound > 0 {
        lemma_disputed_below_covers(disputes, tx, (bound - 1) as nat);
    }
}

/// A new account keeps the invariant.
pub proof fn lemma_empty_wf(client: u16)
    ensures
        AccountState::empty(client).wf(),
{
    lemma_disputed_below_empty(0x1_0000_0000);
    crate::amount::lemma_pow10_monotonic(0, 28);
}

/// A deposit of a positive amount keeps the invariant: afterwards `total` is
/// still `available + held`, and neither `available` nor `held` is negative.
pub proof fn lemma_deposit_wf(pre: AccountState, amount: Amount)
    requires
        pre.wf(),
        amount.wf(),
        amount@ > 0,
        pre.deposit_fits(amount),
    ensures
        pre.deposit(amount).1.wf(),
{
    if !pre.locked {
        lemma_add_exact(pre.available, amount);
        lemma_add_exact(pre.total, amount);
    }
}

/// A withdrawal of a positive amount keeps the invariant.
pub proof fn lemma_withdraw_wf(pre: AccountState, amount: Amount)
    requires
        pre.wf(),
        amount.wf(),
        amount@ > 0,
        pre.withdraw_fits(amount),
    ensures
        pre.withdraw(amount).1.wf(),
{
    if !pre.locked && pre.available@ >= amount@ {
        lemma_sub_exact(pre.available, amount);
        lemma_sub_exact(pre.total, amount);
    }
}

/// A dispute over an amount that is not negative keeps the invariant, also
/// where it can hold back less than that amount.
pub proof fn lemma_dispute_wf(pre: AccountState, amount: Amount, tx: u32)
    requires
        pre.wf(),
        amount.wf(),
        amount@ >= 0,
        pre.dispute_fits(amount, tx),
    ensures
        pre.dispute(amount, tx).1.wf(),
{
    if !pre.locked && !pre.disputes.contains_key(tx) {
        let moved = pre.disputable(amount);
        lemma_sub_exact(pre.available, moved);
        lemma_add_exact(pre.held, moved);
        lemma_disputed_below_insert(pre.disputes, tx, moved, 0x1_0000_0000);
    }
}

/// Resolving a dispute keeps the invariant.
pub proof fn lemma_resolve_wf(pre: AccountState, tx: u32)
    requires
        pre.wf(),
        pre.resolve_fits(tx),
    ensures
        pre.resolve(tx).1.wf(),
{
    if !pre.locked && pre.disputes.contains_key(tx) {
        let moved = pre.disputes[tx];
        lemma_disputed_below_covers(pre.disputes, tx, 0x1_0000_0000);
        lemma_sub_exact(pre.held, moved);
        lemma_add_exact(pre.available, moved);
        lemma_disputed_below_remove(pre.disputes, tx, 0x1_0000_0000);
    }
}

/// A chargeback keeps the invariant.
pub proof fn lemma_chargeback_wf(pre: AccountState, tx: u32)
    requires
        pre.wf(),
        pre.chargeback_fits(tx),
    ensures
        pre.chargeback(tx).1.wf(),
{
    if pre.disputes.contains_key(tx) {
        let moved = pre.disputes[tx];
        lemma_disputed_below_covers(pre.disputes, tx, 0x1_0000_0000);
        lemma_sub_exact(pre.held, moved);
        lemma_sub_exact(pre.total, moved);
        lemma_disputed_below_remove(pre.disputes, tx, 0x1_0000_0000);
    }
}

/// A transaction under dispute cannot be disputed again: on an account that is
/// not locked, the second of two disputes of `tx` is refused as already
/// disputed, whatever became of the first, and changes nothing.
pub proof fn lemma_second_dispute_refused(pre: AccountState, first: Amount, second: Amount, tx: u32)
    requires
        !pre.locked,
    ensures
        pre.dispute(first, tx).1.dispute(second, tx) == (
            Err::<(), AccountError>(AccountError::TransactionAlreadyDisputed),
            pre.dispute(first, tx).1,
        ),
{
}

/// Without an open dispute of `tx` a chargeback is refused as not disputed,
/// on a locked account too, and changes nothing.
pub proof fn lemma_chargeback_needs_dispute(pre: AccountState, tx: u32)
    requires
        !pre.disputes.contains_key(tx),
    ensures
        pre.chargeback(tx) == (Err::<(), AccountError>(AccountError::TransactionNotDisputed), pre),
{
}

/// Without an open dispute of `tx` a resolution is refused as not disputed, on
/// an account that is not locked, and changes nothing.
pub proof fn lemma_resolve_needs_dispute(pre: AccountState, tx: u32)
    requires
        !pre.disputes.contains_key(tx),
        !pre.locked,
    ensures
        pre.resolve(tx) == (Err::<(), AccountError>(AccountError::TransactionNotDisputed), pre),
{
}

/// A locked account refuses every deposit, withdrawal, dispute and resolution
/// as locked, and they change nothing. A chargeback of an open dispute still
/// goes through.
pub proof fn lemma_locked_refuses(pre: AccountState, amount: Amount, tx: u32)
    requires
        pre.locked,
    ensures
        pre.deposit(amount) == (Err::<(), AccountError>(AccountError::AccountLocked), pre),
        pre.withdraw(amount) == (Err::<(), AccountError>(AccountError::AccountLocked), pre),
        pre.dispute(amount, tx) == (Err::<(), AccountError>(AccountError::AccountLocked), pre),
        pre.resolve(tx) == (Err::<(), AccountError>(AccountError::AccountLocked), pre),
        pre.disputes.contains_key(tx) ==> pre.chargeback(tx).0 is Ok,
{
}

/// No operation unlocks an account.
pub proof fn lemma_lock_stays(pre: AccountState, amount: Amount, tx: u32)
    requires
        pre.locked,
    ensures
        pre.deposit(amount).1.locked,
        pre.withdraw(amount).1.locked,
        pre.dispute(amount, tx).1.locked,
        pre.resolve(tx).1.locked,
        pre.chargeback(tx).1.locked,
{
}

/// Digits after the decimal point in the balances that are reported.
pub const REPORTED_SCALE: u32 = 4;

/// The balances of an account as they are reported: rounded to four digits
/// after the decimal point.
#[derive(Debug, Clone, Copy, PartialEq, Eq)]
pub struct AccountSnapshot {
    pub client: u16,
    pub available: Amount,
    pub held: Amount,
    pub total: Amount,
    pub locked: bool,
}

impl AccountSnapshot {
    /// The amounts are decimals.
    pub open spec fn wf(self) -> bool {
        self.available.wf() && self.held.wf() && self.total.wf()
    }
}

impl AccountState {
    /// What is reported of this account. Rounding happens here only: the
    /// account keeps its balances in full.
    pub open spec fn snapshot(self) -> AccountSnapshot {
        AccountSnapshot {
            client: self.client,
            available: self.available.spec_round_dp(REPORTED_SCALE),
            held: self.held.spec_round_dp(REPORTED_SCALE),
            total: self.total.spec_round_dp(REPORTED_SCALE),
            locked: self.locked,
        }
    }
}

/// The account of one client.
#[derive(Debug)]
pub struct Account {
    pub client: u16,
    /// Funds that can be withdrawn or disputed.
    pub available: Amount,
    /// Funds held back by open disputes.
    pub held: Amount,
    /// All funds: `available + held`.
    pub total: Amount,
    /// Set by a chargeback, never cleared.
    pub locked: bool,
    /// The open disputes: what each disputed transaction holds back.
    pub disputed_transactions: HashMap<u32, Amount>,
}

impl View for Account {
    type V = AccountState;

    open spec fn view(&self) -> AccountState {
        AccountState {
            client: self.client,
            available: self.available,
            held: self.held,
            total: self.total,
            locked: self.locked,
            disputes: self.disputed_transactions@,
        }
    }
}

impl Clone for Account {
    fn clone(&self) -> (r: Account)
        ensures
            r@ == self@,
    {
        Account {
            client: self.client,
            available: self.available,
            held: self.held,
            total: self.total,
            locked: self.locked,
            disputed_transactions: self.disputed_transactions.clone(),
        }
    }
}

impl Account {
    /// The invariant of [`AccountState::wf`].
    pub open spec fn wf(&self) -> bool {
        self@.wf()
    }

    /// A new account of `client`: no funds, no disputes, not locked.
    pub fn new(client: u16) -> (r: Account)
        ensures
            r@ == AccountState::empty(client),
            r.wf(),
    {
        proof {
            lemma_empty_wf(client);
        }
        Account {
            client,
            available: Amount::zero(),
            held: Amount::zero(),
            total: Amount::zero(),
            locked: false,
            disputed_transactions: HashMap::new(),
        }
    }

    /// The balances to report, rounded for display. The account is not changed.
    pub fn snapshot(&self) -> (r: AccountSnapshot)
        requires
            self.wf(),
        ensures
            r == self@.snapshot(),
            r.wf(),
    {
        AccountSnapshot {
            client: self.client,
            available: self.available.round_dp(REPORTED_SCALE),
            held: self.held.round_dp(REPORTED_SCALE),
            total: self.total.round_dp(REPORTED_SCALE),
            locked: self.locked,
        }
    }

    /// Decides [`AccountState::deposit_fits`].
    pub fn can_deposit(&self, amount: Amount) -> (r: bool)
        requires
            self.wf(),
            amount.wf(),
        ensures
            r == self@.deposit_fits(amount),
    {
        self.locked || (self.available.can_add(amount) && self.total.can_add(amount))
    }

    /// Adds `amount` to the funds, unless the account is locked.
    pub fn deposit(&mut self, amount: Amount) -> (r: Result<(), AccountError>)
        requires
            old(self).wf(),
            amount.wf(),
            amount@ > 0,
            old(self)@.deposit_fits(amount),
        ensures
            (r, final(self)@) == old(self)@.deposit(amount),
            final(self).wf(),
    {
        if self.locked {
            return Err(AccountError::AccountLocked);
        }
        proof {
            lemma_deposit_wf(self@, amount);
        }
        self.available = decimal_add(self.available, amount);
        self.total = decimal_add(self.total, amount);
        Ok(())
    }

    /// Decides [`AccountState::withdraw_fits`].
    pub fn can_withdraw(&self, amount: Amount) -> (r: bool)
        requires
            self.wf(),
            amount.wf(),
        ensures
            r == self@.withdraw_fits(amount),
    {
        self.locked || self.available.lt(amount) || (self.available.can_sub(amount)
            && self.total.can_sub(amount))
    }

    /// Takes `amount` from the funds, unless the account is locked or has less
    /// than that available.
    pub fn withdraw(&mut self, amount: Amount) -> (r: Result<(), AccountError>)
        requires
            old(self).wf(),
            amount.wf(),
            amount@ > 0,
            old(self)@.withdraw_fits(amount),
        ensures
            (r, final(self)@) == old(self)@.withdraw(amount),
            final(self).wf(),
    {
        if self.locked {
            return Err(AccountError::AccountLocked);
        }
        if self.available.lt(amount) {
            return Err(AccountError::InsufficientFunds);
        }
        proof {
            lemma_withdraw_wf(self@, amount);
        }
        self.available = decimal_sub(self.available, amount);
        self.total = decimal_sub(self.total, amount);
        Ok(())
    }

    /// Decides [`AccountState::dispute_fits`].
    pub fn can_dispute(&self, amount: Amount, tx_id: u32) -> (r: bool)
        requires
            self.wf(),
            amount.wf(),
        ensures
            r == self@.dispute_fits(amount, tx_id),
    {
        if self.locked || self.disputed_transactions.contains_key(&tx_id) {
            return true;
        }
        let moved = if self.available.lt(amount) { self.available } else { amount };
        self.available.can_sub(moved) && self.held.can_add(moved)
    }

    /// Opens a dispute of transaction `tx_id` over `amount`, unless the account
    /// is locked or the transaction is under dispute already. Where less than
    /// `amount` is available, the dispute holds all that is available instead.
    pub fn dispute(&mut self, amount: Amount, tx_id: u32) -> (r: Result<(), AccountError>)
        requires
            old(self).wf(),
            amount.wf(),
            amount@ >= 0,
            old(self)@.dispute_fits(amount, tx_id),
        ensures
            (r, final(self)@) == old(self)@.dispute(amount, tx_id),
            final(self).wf(),
    {
        if self.locked {
            return Err(AccountError::AccountLocked);
        }
        if self.disputed_transactions.contains_key(&tx_id) {
            return Err(AccountError::TransactionAlreadyDisputed);
        }
        proof {
            lemma_dispute_wf(self@, amount, tx_id);
        }
        // Hold back no more than is available.
        let moved = if self.available.lt(amount) { self.available } else { amount };
        self.available = decimal_sub(self.available, moved);
        self.held = decimal_add(self.held, moved);
        self.disputed_transactions.insert(tx_id, moved);
        Ok(())
    }

    /// Decides [`AccountState::resolve_fits`].
    pub fn can_resolve(&self, tx_id: u32) -> (r: bool)
        requires
            self.wf(),
        ensures
            r == self@.resolve_fits(tx_id),
    {
        if self.locked {
            return true;
        }
        match self.disputed_transactions.get(&tx_id) {
            Some(moved) => self.held.can_sub(*moved) && self.available.can_add(*moved),
            None => true,
        }
    }

    /// Closes the dispute of transaction `tx_id` and releases what it held,
    /// unless the account is locked or the transaction is not under dispute.
    pub fn resolve(&mut self, tx_id: u32) -> (r: Result<(), AccountError>)
        requires
            old(self).wf(),
            old(self)@.resolve_fits(tx_id),
        ensures
            (r, final(self)@) == old(self)@.resolve(tx_id),
            final(self).wf(),
    {
        if self.locked {
            return Err(AccountError::AccountLocked);
        }
        let moved = match self.disputed_transactions.get(&tx_id) {
            Some(moved) => *moved,
            None => {
                return Err(AccountError::TransactionNotDisputed);
            },
        };
        proof {
            lemma_resolve_wf(self@, tx_id);
        }
        self.held = decimal_sub(self.held, moved);
        self.available = decimal_add(self.available, moved);
        self.disputed_transactions.remove(&tx_id);
        Ok(())
    }

    /// Decides [`AccountState::chargeback_fits`].
    pub fn can_chargeback(&self, tx_id: u32) -> (r: bool)
        requires
            self.wf(),
        ensures
            r == self@.chargeback_fits(tx_id),
    {
        match self.disputed_transactions.get(&tx_id) {
            Some(moved) => self.held.can_sub(*moved) && self.total.can_sub(*moved),
            None => true,
        }
    }

    /// Closes the dispute of transaction `tx_id`, removes what it held from the
    /// account and locks the account, unless the transaction is not under
    /// dispute. A locked account is no obstacle.
    pub fn chargeback(&mut self, tx_id: u32) -> (r: Result<(), AccountError>)
        requires
            old(self).wf(),
            old(self)@.chargeback_fits(tx_id),
        ensures
            (r, final(self)@) == old(self)@.chargeback(tx_id),
            final(self).wf(),
    {
        let moved = match self.disputed_transactions.get(&tx_id) {
            Some(moved) => *moved,
            None => {
                return Err(AccountError::TransactionNotDisputed);
            },
        };
        proof {
            lemma_chargeback_wf(self@, tx_id);
        }
        self.held = decimal_sub(self.held, moved);
        self.total = decimal_sub(self.total, moved);
        self.locked = true;
        self.disputed_transactions.remove(&tx_id);
        Ok(())
    }
}

} // verus!
