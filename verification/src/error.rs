//! Why the ledger refuses a request.

use vstd::prelude::*;
use vstd::string::StringExecFns;

verus! {

/// Why the ledger refuses a request.
#[derive(Clone, Debug, PartialEq, Eq)]
pub enum Error {
    /// The bytes are no encoded transaction.
    Decode,
    /// The transaction asks for more gas than a block may use.
    GasLimit,
    /// The signature gives no sender.
    Signature,
    /// The transaction offers less than the minimum gas price.
    GasPrice,
    /// The engine failed to execute the transaction; these are its words.
    Execution(String),
    /// The engine's receipt carries no status code.
    UnsupportedOutcome,
    /// No block goes by the given identifier.
    BlockNotFound,
}

impl Error {
    /// The words that go with the error.
    pub open spec fn text(&self) -> Seq<char> {
        match self {
            Error::Decode => "Could not decode transaction"@,
            Error::GasLimit => "Requested gas greater than block gas limit"@,
            Error::Signature => "Invalid signature"@,
            Error::GasPrice => "Insufficient gas price"@,
            Error::Execution(words) => words@,
            Error::UnsupportedOutcome => "we always use EIP-658 semantics"@,
            Error::BlockNotFound => "block not found"@,
        }
    }

    /// The words that go with the error.
    pub fn message(&self) -> (r: String)
        ensures
            r@ == self.text(),
    {
        match self {
            Error::Decode => String::from_str("Could not decode transaction"),
            Error::GasLimit => String::from_str("Requested gas greater than block gas limit"),
            Error::Signature => String::from_str("Invalid signature"),
            Error::GasPrice => String::from_str("Insufficient gas price"),
            Error::Execution(words) => words.clone(),
            Error::UnsupportedOutcome => String::from_str("we always use EIP-658 semantics"),
            Error::BlockNotFound => String::from_str("block not found"),
        }
    }
}

} // verus!
