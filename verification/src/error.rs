use vstd::prelude::*;

verus! {

/// Why an operation on the ledger was refused. A refused operation leaves the
/// ledger exactly as it was.
#[derive(Clone, Copy, Debug, PartialEq, Eq, Structural)]
pub enum LedgerError {
    /// A referenced hackathon, category, award, submission or member does not exist.
    NotFound,
    /// The caller fails an authorization predicate.
    Unauthorized,
    /// The award is not in the state that the transition starts from.
    InvalidState,
    /// A listed member is not eligible, or a child does not belong to the named parent.
    InvalidInput,
    /// The attached value differs from the award's prize amount.
    PaymentMismatch,
}

impl LedgerError {
    /// A short description of the error.
    pub fn message(&self) -> (text: &'static str)
        ensures
            text@ == match *self {
                LedgerError::NotFound => "record not found"@,
                LedgerError::Unauthorized => "caller is not authorized"@,
                LedgerError::InvalidState => "award is not in the required state"@,
                LedgerError::InvalidInput => "invalid member or parent reference"@,
                LedgerError::PaymentMismatch => "attached value differs from the prize amount"@,
            },
    {
        match self {
            LedgerError::NotFound => "record not found",
            LedgerError::Unauthorized => "caller is not authorized",
            LedgerError::InvalidState => "award is not in the required state",
            LedgerError::InvalidInput => "invalid member or parent reference",
            LedgerError::PaymentMismatch => "attached value differs from the prize amount",
        }
    }
}

} // verus!
