//! The decisions inside the account flows.
//!
//! Registration and login read and write the store, which lives outside this
//! crate; what stands here is everything those flows decide, as functions of
//! the store's answer and the request's plain values. The caller performs
//! the I/O around them.
//!
//! Logout has no function here on purpose: the server keeps no record of
//! issued tokens, so logging out only instructs the client to drop its
//! cookie. A token that already exists remains independently valid until its
//! natural expiry — `login_spec` and the token codec's contracts make that
//! visible rather than hiding it.

use vstd::prelude::*;

use crate::errors::AuthError;
use crate::guard::GuardDecision;
use crate::guard::guard_spec;
use crate::guard::request_outcome;
use crate::identity::LookupOutcome;
use crate::identity::UserRecord;
use crate::identity::format_user_id;
use crate::identity::lemma_user_id_roundtrip;
use crate::identity::resolved_subject;
use crate::identity::uuid_seq;
use crate::password::digest_matches;
use crate::token::TokenError;
use crate::token::decode_spec;
use crate::token::hmac_sha256_of;
use crate::token::issue;
use crate::token::lemma_issue_then_decode;
use crate::token::lemma_token_structure;
use crate::token::payload_seq;
use crate::token::token_seq;
use crate::token::token_subject;

verus! {

/// What the persistence collaborator answered to a registration insert.
#[derive(Clone, Debug)]
pub enum SaveOutcome {
    /// The row was written; here is the stored record.
    Saved(UserRecord),
    /// A unique field — the email — already exists.
    DuplicateEmail,
    /// The store could not answer at all.
    StoreFailure,
}

/// What registration concludes from the store's answer: the record, or
/// `Conflict` for a duplicate email, or a server error.
pub open spec fn saved_user(outcome: SaveOutcome) -> Result<UserRecord, AuthError> {
    match outcome {
        SaveOutcome::Saved(u) => Ok(u),
        SaveOutcome::DuplicateEmail => Err(AuthError::Conflict),
        SaveOutcome::StoreFailure => Err(AuthError::Server),
    }
}

/// Concludes registration from the store's answer, per `saved_user`.
pub fn registration_saved(outcome: SaveOutcome) -> (r: Result<UserRecord, AuthError>)
    ensures
        r == saved_user(outcome),
{
    match outcome {
        SaveOutcome::Saved(u) => Ok(u),
        SaveOutcome::DuplicateEmail => Err(AuthError::Conflict),
        SaveOutcome::StoreFailure => Err(AuthError::Server),
    }
}

/// What login answers, from the by-email lookup's outcome and the presented
/// password: a token for the user's identifier, issued at `now` with the
/// configured maximum age, exactly when the user exists and the password
/// matches the stored digest; `Unauthenticated` for an unknown email and for
/// a wrong password alike; a server error only for an unreachable store.
pub open spec fn login_spec(
    lookup: LookupOutcome,
    password: Seq<u8>,
    secret: Seq<u8>,
    max_age: u64,
    now: u64,
) -> Result<Seq<u8>, AuthError> {
    match lookup {
        LookupOutcome::StoreFailure => Err(AuthError::Server),
        LookupOutcome::Missing => Err(AuthError::Unauthenticated),
        LookupOutcome::Found(u) => if digest_matches(password, u.password_digest@) {
            Ok(token_seq(uuid_seq(u.id), now, (now + max_age) as u64, secret))
        } else {
            Err(AuthError::Unauthenticated)
        },
    }
}

/// Decides one login, per `login_spec`. The last clause is the session the
/// caller was owed: a granted token decodes to its subject under the same
/// secret at any time strictly before `now + max_age` — and, the server
/// keeping no record of issued tokens, nothing later revokes that.
pub fn login(
    lookup: LookupOutcome,
    password: &[u8],
    secret: &[u8],
    max_age: u64,
    now: u64,
) -> (r: Result<Vec<u8>, AuthError>)
    requires
        now + max_age <= u64::MAX,
    ensures
        r matches Ok(t) ==> login_spec(lookup, password@, secret@, max_age, now) == Ok::<
            Seq<u8>,
            AuthError,
        >(t@),
        r matches Err(e) ==> login_spec(lookup, password@, secret@, max_age, now) == Err::<
            Seq<u8>,
            AuthError,
        >(e),
        r matches Ok(t) ==> forall|at: u64|
            at < now + max_age ==> #[trigger] decode_spec(t@, secret@, at) == Ok::<
                Seq<u8>,
                TokenError,
            >(token_subject(t@)),
        lookup matches LookupOutcome::Found(u) ==> (r matches Ok(t) ==> hmac_sha256_of(
            secret@,
            payload_seq(uuid_seq(u.id), now, (now + max_age) as u64),
        ).len() == 32),
{
    match lookup {
        LookupOutcome::StoreFailure => Err(AuthError::Server),
        LookupOutcome::Missing => Err(AuthError::Unauthenticated),
        LookupOutcome::Found(u) => {
            if crate::password::verify(password, u.password_digest.as_str()) {
                let sub = format_user_id(u.id);
                let t = issue(sub.as_slice(), secret, max_age, now);
                proof {
                    let exp = (now + max_age) as u64;
                    lemma_token_structure(sub@, now, exp, secret@);
                    assert forall|at: u64| at < now + max_age implies #[trigger] decode_spec(
                        t@,
                        secret@,
                        at,
                    ) == Ok::<Seq<u8>, TokenError>(token_subject(t@)) by {
                        lemma_issue_then_decode(sub@, secret@, now, max_age, at);
                    }
                }
                Ok(t)
            } else {
                Err(AuthError::Unauthenticated)
            }
        },
    }
}

/// Decides one password change, from the re-lookup of the already
/// authenticated user and the two presented passwords: the old password must
/// match the stored digest, and the answer is a fresh digest of the new
/// password for the store to keep. A wrong old password is a negative
/// credential result, and a user that vanished between resolution and
/// re-lookup no longer has credentials at all: both answer
/// `Unauthenticated`. Only an unreachable store or a failing primitive is a
/// server error.
pub fn change_password(
    lookup: LookupOutcome,
    old_password: &[u8],
    new_password: &[u8],
) -> (r: Result<String, AuthError>)
    ensures
        r matches Ok(d) ==> ({
            &&& lookup matches LookupOutcome::Found(u) && digest_matches(
                old_password@,
                u.password_digest@,
            )
            &&& digest_matches(new_password@, d@)
        }),
        lookup matches LookupOutcome::StoreFailure ==> r == Err::<String, AuthError>(
            AuthError::Server,
        ),
        lookup matches LookupOutcome::Missing ==> r == Err::<String, AuthError>(
            AuthError::Unauthenticated,
        ),
        (lookup matches LookupOutcome::Found(u) && !digest_matches(
            old_password@,
            u.password_digest@,
        )) ==> r == Err::<String, AuthError>(AuthError::Unauthenticated),
        (lookup matches LookupOutcome::Found(u) && digest_matches(
            old_password@,
            u.password_digest@,
        )) ==> (r matches Ok(d) && digest_matches(new_password@, d@)) || r == Err::<
            String,
            AuthError,
        >(AuthError::Server),
{
    match lookup {
        LookupOutcome::StoreFailure => Err(AuthError::Server),
        LookupOutcome::Missing => Err(AuthError::Unauthenticated),
        LookupOutcome::Found(u) => {
            if crate::password::verify(old_password, u.password_digest.as_str()) {
                crate::password::hash(new_password)
            } else {
                Err(AuthError::Unauthenticated)
            }
        },
    }
}

/// The session a granted login carries, end to end: presented as a cookie
/// at any time strictly before its expiry, the token resolves to the
/// logged-in user's identifier; the store then answering with the user, any
/// allow-set admitting the user's role admits the request. Nothing in this
/// depends on anything but the token, the secret and the clock — the server
/// keeps no session state — so a logout in between changes none of it: the
/// token stays good until its natural expiry. The tag-length premise names
/// what the signing primitive returns.
pub proof fn lemma_session_roundtrip(
    u: UserRecord,
    password: Seq<u8>,
    secret: Seq<u8>,
    max_age: u64,
    now: u64,
    at: u64,
    t: Seq<u8>,
    required: crate::roles::RoleSet,
)
    requires
        now + max_age <= u64::MAX,
        at < now + max_age,
        login_spec(LookupOutcome::Found(u), password, secret, max_age, now) == Ok::<
            Seq<u8>,
            AuthError,
        >(t),
        hmac_sha256_of(secret, payload_seq(uuid_seq(u.id), now, (now + max_age) as u64)).len()
            == 32,
        required.spec_contains(u.role),
    ensures
        resolved_subject(Some(t), None, secret, at) == Ok::<u128, AuthError>(u.id),
        guard_spec(
            request_outcome(resolved_subject(Some(t), None, secret, at), LookupOutcome::Found(u)),
            required,
        ) == GuardDecision::Admitted(u),
{
    lemma_issue_then_decode(uuid_seq(u.id), secret, now, max_age, at);
    lemma_user_id_roundtrip(u.id);
}

/// A wrong password and an unknown email answer byte-for-byte alike:
/// `Unauthenticated`, with no hint of whether the account exists.
pub proof fn lemma_login_no_account_leak(
    u: UserRecord,
    password: Seq<u8>,
    secret: Seq<u8>,
    max_age: u64,
    now: u64,
)
    requires
        !digest_matches(password, u.password_digest@),
    ensures
        login_spec(LookupOutcome::Found(u), password, secret, max_age, now) == login_spec(
            LookupOutcome::Missing,
            password,
            secret,
            max_age,
            now,
        ),
        login_spec(LookupOutcome::Missing, password, secret, max_age, now) == Err::<
            Seq<u8>,
            AuthError,
        >(AuthError::Unauthenticated),
{
}

} // verus!
