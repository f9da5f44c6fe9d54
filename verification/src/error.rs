//! The failures a run can report, and what they mean for its result.

use vstd::prelude::*;

verus! {

/// What can go wrong while a stream of transactions is read and applied.
#[derive(Debug)]
pub enum ApplicationError {
    /// The input could not be opened; the text says why.
    CouldNotOpenFile(String),
    /// A record of the input is malformed; the text says how.
    FailedDeserializedCsvTransaction(String),
    /// A withdrawal asked for more than the account has available: the
    /// account and the transaction.
    InsufficientAvailableBalanceForWithdrawal(u16, u32),
    /// A transaction reached a locked account: the account and the
    /// transaction.
    ClientAccountFrozen(u16, u32),
    /// A fault inside one of the processing units; the text describes it.
    Other(String),
}

impl ApplicationError {
    /// Whether the error is fatal to the run: the input could not be
    /// opened, or one of its records is malformed. Every other error
    /// concerns single transactions or a single worker.
    pub open spec fn fatal(self) -> bool {
        self is CouldNotOpenFile || self is FailedDeserializedCsvTransaction
    }

    /// Whether the error is fatal to the run.
    pub fn is_fatal(&self) -> (fatal: bool)
        ensures
            fatal == self.fatal(),
    {
        match self {
            ApplicationError::CouldNotOpenFile(_) => true,
            ApplicationError::FailedDeserializedCsvTransaction(_) => true,
            ApplicationError::InsufficientAvailableBalanceForWithdrawal(_, _) => false,
            ApplicationError::ClientAccountFrozen(_, _) => false,
            ApplicationError::Other(_) => false,
        }
    }
}

/// Whether one of `errors` is fatal to the run.
pub open spec fn any_fatal(errors: Seq<ApplicationError>) -> bool {
    exists|i: int| 0 <= i < errors.len() && (#[trigger] errors[i]).fatal()
}

/// Whether a run that met `errors` shows its accounts: it does unless one
/// of the errors is fatal. A run without errors, or with errors of single
/// transactions and workers only, shows them.
pub fn prints_ledger(errors: &Vec<ApplicationError>) -> (printed: bool)
    ensures
        printed == !any_fatal(errors@),
{
    let mut seen: usize = 0;
    while seen < errors.len()
        invariant
            seen <= errors@.len(),
            forall|i: int| 0 <= i < seen ==> !(#[trigger] errors@[i]).fatal(),
        decreases errors@.len() - seen,
    {
        if errors[seen].is_fatal() {
            return false;
        }
        seen = seen + 1;
    }
    true
}

} // verus!
