//! The domain errors of the scheme.

use vstd::prelude::*;

verus! {

/// Everything that can go wrong across registration, encryption,
/// decryption and ledger retrieval. Every error is an explicit result
/// value; nothing falls back to a default silently.
#[derive(Clone, Copy, Debug, PartialEq, Eq, Structural)]
pub enum RbeError {
    /// The identity lies outside `[1, capacity]`: a caller error.
    InvalidIdentity,
    /// A group element failed its decoding or subgroup check: fatal for
    /// that element.
    MalformedGroupElement,
    /// No auxiliary element matched: refetch helper data and retry; not a
    /// failure.
    DecryptionPending,
    /// The secret key is zero, hence not invertible: a caller error.
    InvalidKey,
    /// The candidate set of ledger transactions was exhausted without a
    /// confirmed registration.
    LedgerQueryFailure,
}

} // verus!
