//! The access guard.
//!
//! A guarded operation is wrapped with the set of roles it admits, fixed at
//! configuration time and never empty. Per request the guard first runs the
//! identity resolver; any failure there ends the request with the resolver's
//! error and the protected operation never runs. Once an identity is
//! resolved, the guard tests membership of its role in the allow-set:
//! a member is admitted and the operation runs with the resolved identity;
//! anyone else is denied with `Forbidden` — distinct from `Unauthenticated`,
//! since the caller proved who they are but lacks the privilege.

use vstd::prelude::*;

use crate::errors::AuthError;
use crate::identity::LookupOutcome;
use crate::identity::UserRecord;
use crate::identity::identity_of;
use crate::identity::resolve_identity;
use crate::identity::resolved_subject;
use crate::roles::RoleSet;

verus! {

/// The terminal state of one guarded request: either the operation runs,
/// with the resolved identity in hand, or it never does.
pub enum GuardDecision {
    /// The role check passed; run the operation with this identity.
    Admitted(UserRecord),
    /// The request ends here with this error; the operation never runs.
    Denied(AuthError),
}

/// What the guard decides from the resolver's outcome and the allow-set:
/// a resolver failure is passed through as the denial, an identity whose
/// role is not admitted is denied `Forbidden`, and a member is admitted.
pub open spec fn guard_spec(
    resolution: Result<UserRecord, AuthError>,
    required: RoleSet,
) -> GuardDecision {
    match resolution {
        Err(e) => GuardDecision::Denied(e),
        Ok(u) => if required.spec_contains(u.role) {
            GuardDecision::Admitted(u)
        } else {
            GuardDecision::Denied(AuthError::Forbidden)
        },
    }
}

/// Decides one guarded request, per `guard_spec`. The allow-set must be a
/// valid configuration: it admits at least one role.
pub fn authorize(resolution: Result<UserRecord, AuthError>, required: &RoleSet) -> (r:
    GuardDecision)
    requires
        required.is_valid_config(),
    ensures
        r == guard_spec(resolution, *required),
{
    match resolution {
        Err(e) => GuardDecision::Denied(e),
        Ok(u) => {
            if required.contains(u.role) {
                GuardDecision::Admitted(u)
            } else {
                GuardDecision::Denied(AuthError::Forbidden)
            }
        },
    }
}

/// The resolver's conclusion for one request: a failure to resolve a
/// subject stands as it is — the store is never consulted — and otherwise
/// the store's answer for the resolved identifier decides.
pub open spec fn request_outcome(
    subject_resolution: Result<u128, AuthError>,
    lookup: LookupOutcome,
) -> Result<UserRecord, AuthError> {
    match subject_resolution {
        Err(e) => Err(e),
        Ok(_) => identity_of(lookup),
    }
}

/// Concludes one guarded request from the subject resolution and the store's
/// answer for the resolved identifier, per `request_outcome` and
/// `guard_spec`. Where no subject was resolved, `lookup` is ignored: the
/// caller need not have consulted the store at all.
pub fn conclude_request(
    subject_resolution: Result<u128, AuthError>,
    lookup: LookupOutcome,
    required: &RoleSet,
) -> (r: GuardDecision)
    requires
        required.is_valid_config(),
    ensures
        r == guard_spec(request_outcome(subject_resolution, lookup), *required),
{
    match subject_resolution {
        Err(e) => GuardDecision::Denied(e),
        Ok(_) => authorize(resolve_identity(lookup), required),
    }
}

/// An allow-set of `Admin` alone admits a resolved `Admin` identity and
/// denies a resolved `User` identity with `Forbidden` — not
/// `Unauthenticated`: the identity was proved, the privilege was missing.
pub proof fn lemma_admin_gate(admin: UserRecord, plain: UserRecord)
    requires
        admin.role == crate::roles::Role::Admin,
        plain.role == crate::roles::Role::User,
    ensures
        ({
            let required = RoleSet { user: false, moderator: false, admin: true };
            &&& guard_spec(Ok(admin), required) == GuardDecision::Admitted(admin)
            &&& guard_spec(Ok(plain), required) == GuardDecision::Denied(AuthError::Forbidden)
        }),
{
}

/// A request with no token on either channel is denied `Unauthenticated`,
/// whatever the allow-set holds and whatever any store would have answered;
/// only an `Admitted` decision carries an identity for the protected
/// operation, so the operation never runs.
pub proof fn lemma_no_credentials_denied(
    secret: Seq<u8>,
    now: u64,
    required: RoleSet,
    lookup: LookupOutcome,
)
    ensures
        resolved_subject(None, None, secret, now) == Err::<u128, AuthError>(
            AuthError::Unauthenticated,
        ),
        guard_spec(
            request_outcome(resolved_subject(None, None, secret, now), lookup),
            required,
        ) == GuardDecision::Denied(AuthError::Unauthenticated),
{
}

} // verus!
