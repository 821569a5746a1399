//! Why the engine rejects a record.

use crate::account::AccountError;
use vstd::prelude::*;
use vstd::std_specs::convert::FromSpecImpl;
use vstd::string::StringExecFns;

verus! {

/// A rejection, with its reason in words.
#[derive(Debug)]
pub enum EngineError {
    /// The record breaks a rule of the log.
    InvalidTransaction(String),
    /// The account refused the operation.
    AccountError(String),
}

/// A rejection as a value of plain text: the view of an [`EngineError`].
pub enum Rejection {
    InvalidTransaction(Seq<char>),
    AccountError(Seq<char>),
}

impl View for EngineError {
    type V = Rejection;

    open spec fn view(&self) -> Rejection {
        match self {
            EngineError::InvalidTransaction(reason) => Rejection::InvalidTransaction(reason@),
            EngineError::AccountError(reason) => Rejection::AccountError(reason@),
        }
    }
}

impl Rejection {
    /// The rejection that an account's refusal becomes.
    pub open spec fn of_account(err: AccountError) -> Rejection {
        Rejection::AccountError(err.message())
    }

    /// The rejection in one line: its kind, then its reason.
    pub open spec fn text(self) -> Seq<char> {
        match self {
            Rejection::InvalidTransaction(reason) => "Invalid transaction: "@ + reason,
            Rejection::AccountError(reason) => "Account error: "@ + reason,
        }
    }
}

/// The rejection, if any, that the result of an operation carries.
pub open spec fn rejection_of(result: Result<(), EngineError>) -> Option<Rejection> {
    match result {
        Ok(_) => None,
        Err(err) => Some(err@),
    }
}

impl EngineError {
    /// The rejection in one line: its kind, then its reason.
    pub fn to_string(&self) -> (r: String)
        ensures
            r@ == self@.text(),
    {
        match self {
            EngineError::InvalidTransaction(reason) => {
                String::from_str("Invalid transaction: ").concat(reason.as_str())
            },
            EngineError::AccountError(reason) => {
                String::from_str("Account error: ").concat(reason.as_str())
            },
        }
    }
}

/// An account's refusal as a rejection, with the text of the refusal as reason.
impl From<AccountError> for EngineError {
    fn from(err: AccountError) -> (r: EngineError)
        ensures
            r@ == Rejection::of_account(err),
    {
        EngineError::AccountError(String::from_str(err.as_str()))
    }
}

/// What `from` gives is stated on its view, above: a `String` cannot be written
/// down in a specification, so there is no value here to equate the result with.
impl FromSpecImpl<AccountError> for EngineError {
    open spec fn obeys_from_spec() -> bool {
        false
    }

    open spec fn from_spec(err: AccountError) -> EngineError {
        arbitrary()
    }
}

} // verus!
