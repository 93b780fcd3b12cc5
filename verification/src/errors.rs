//! The error taxonomy of the core.
//!
//! `Unauthenticated` covers every credential-shaped failure (missing, forged,
//! expired, or stale token, unknown user, wrong password) so that a caller
//! cannot tell those apart from the response alone. `Forbidden` is distinct:
//! the caller proved who they are but lacks the required role. `Server`
//! covers infrastructure failures (hashing primitive, unreachable store) and
//! is never conflated with a credential failure.

use vstd::prelude::*;

verus! {

/// Terminal outcome kinds of the surrounding request flows.
#[derive(Clone, Copy, Debug, PartialEq, Eq, Structural)]
pub enum AuthError {
    /// Malformed input, surfaced to the caller.
    Validation,
    /// Missing, invalid, or expired credentials, or an unknown user.
    Unauthenticated,
    /// A resolved identity whose role the operation does not admit.
    Forbidden,
    /// A duplicate unique field during registration.
    Conflict,
    /// Infrastructure failure: hashing primitive or unreachable store.
    Server,
}

} // verus!
