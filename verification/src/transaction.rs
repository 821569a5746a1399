//! Transaction records.

use crate::amount::Amount;
use vstd::prelude::*;

verus! {

/// What a record asks for.
#[derive(Debug, Clone, Copy, PartialEq, Eq)]
pub enum TransactionType {
    Deposit,
    Withdrawal,
    Dispute,
    Resolve,
    Chargeback,
}

/// One record of the log. Deposits and withdrawals bring their own transaction
/// id and an amount; disputes, resolutions and chargebacks name the id of an
/// earlier transaction and bring no amount. A record that breaks this is still
/// a value of this type: the engine rejects it.
#[derive(Debug, Clone, Copy, PartialEq, Eq)]
pub struct Transaction {
    pub transaction_type: TransactionType,
    pub client: u16,
    pub tx: u32,
    pub amount: Option<Amount>,
}

impl Transaction {
    /// The amount, where there is one, is a decimal.
    pub open spec fn wf(&self) -> bool {
        self.amount matches Some(amount) ==> amount.wf()
    }

    /// Whether this is a deposit or a withdrawal.
    pub open spec fn moves_funds(&self) -> bool {
        self.transaction_type is Deposit || self.transaction_type is Withdrawal
    }

    #[verifier::when_used_as_spec(moves_funds)]
    pub fn requires_amount(&self) -> (r: bool)
        ensures
            r == self.moves_funds(),
    {
        match self.transaction_type {
            TransactionType::Deposit | TransactionType::Withdrawal => true,
            _ => false,
        }
    }

    /// Whether this is a dispute, a resolution or a chargeback.
    pub open spec fn refers_to_dispute(&self) -> bool {
        self.transaction_type is Dispute || self.transaction_type is Resolve
            || self.transaction_type is Chargeback
    }

    #[verifier::when_used_as_spec(refers_to_dispute)]
    pub fn is_dispute_related(&self) -> (r: bool)
        ensures
            r == self.refers_to_dispute(),
    {
        match self.transaction_type {
            TransactionType::Dispute | TransactionType::Resolve | TransactionType::Chargeback => true,
            _ => false,
        }
    }
}

} // verus!
