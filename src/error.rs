use vstd::prelude::*;

use crate::oid::Oid;

verus! {

/// Why a regraph run stopped.
#[derive(Clone, Debug, PartialEq, Eq)]
pub enum RegraphError {
    /// The edit reproduced the original commit exactly: nothing would change.
    NoChange,
    /// A commit that has to be written again holds a message that is not
    /// valid text, so it cannot be reproduced faithfully.
    InvalidMessageEncoding { commit: Oid },
    /// An object or a reference that was asked for does not exist. The store
    /// that performs the reads reports it, with its own description.
    NotFound { message: String },
    /// The object or reference store failed, or a reference moved while the
    /// run was in progress. The store reports it, saying what was in flight.
    StoreFailure { message: String },
}

} // verus!
