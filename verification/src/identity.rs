//! The identity resolver.
//!
//! Given the credentials found on a request — a session cookie, or a bearer
//! header — the resolver locates a candidate token, decodes it under the
//! server's secret, reads the subject as a user identifier, and asks the
//! persistence collaborator for the user. Every credential-shaped failure
//! (no token, bad token, stale token, no such user) collapses into
//! `Unauthenticated`; only a store failure is told apart, as a server error.
//!
//! The store lives outside this crate: the caller performs the lookup
//! between `resolve_subject` and `resolve_identity` and hands its outcome
//! back as a plain value, so both halves of the resolver are verified for
//! every outcome the store can produce.
//!
//! A user identifier travels as text in the token's subject: thirty-two
//! lowercase hex digits in five dash-separated groups of 8-4-4-4-12. The
//! codec below round-trips every identifier.

use vstd::prelude::*;

use crate::errors::AuthError;
use crate::hexfmt::hex_seq;
use crate::hexfmt::hex_val;
use crate::hexfmt::lemma_hex_roundtrip;
use crate::hexfmt::lemma_hex_seq_len;
use crate::hexfmt::lemma_pow16_vals;
use crate::hexfmt::parse_hex;
use crate::hexfmt::push_all;
use crate::hexfmt::push_hex;
use crate::roles::Role;
use crate::token::decode_spec;
use crate::token::decode;
use vstd::slice::slice_index_get;
use vstd::slice::slice_subrange;
use vstd::slice::slice_to_vec;

verus! {

/// The separator inside the text form of a user identifier.
pub const DASH: u8 = 0x2d;

/// A user as the core sees one: identifier, role, and the stored password
/// digest, an opaque comparison target. The plaintext is never stored.
#[derive(Clone, Debug)]
pub struct UserRecord {
    /// The 128-bit unique identifier.
    pub id: u128,
    /// The one role the user holds.
    pub role: Role,
    /// The self-describing digest of the user's password.
    pub password_digest: String,
}

/// What the persistence collaborator answered to a lookup.
#[derive(Clone, Debug)]
pub enum LookupOutcome {
    /// The user exists; here is the record.
    Found(UserRecord),
    /// No such user — deleted, perhaps, after the token was issued.
    Missing,
    /// The store could not answer at all.
    StoreFailure,
}

/// The text form of an identifier: its thirty-two hex digits in groups of
/// 8-4-4-4-12, dash-separated.
pub open spec fn uuid_seq(id: u128) -> Seq<u8> {
    let h = hex_seq(id as nat, 32);
    h.subrange(0, 8) + seq![DASH] + h.subrange(8, 12) + seq![DASH] + h.subrange(12, 16)
        + seq![DASH] + h.subrange(16, 20) + seq![DASH] + h.subrange(20, 32)
}

/// The thirty-two digit characters of a candidate text form, dashes removed.
pub open spec fn uuid_stripped(s: Seq<u8>) -> Seq<u8> {
    s.subrange(0, 8) + s.subrange(9, 13) + s.subrange(14, 18) + s.subrange(19, 23) + s.subrange(
        24,
        36,
    )
}

/// The identifier a candidate text form spells, `None` where the shape or a
/// digit is wrong.
pub open spec fn uuid_val(s: Seq<u8>) -> Option<nat> {
    if s.len() == 36 && s[8] == DASH && s[13] == DASH && s[18] == DASH && s[23] == DASH {
        hex_val(uuid_stripped(s))
    } else {
        None
    }
}

/// Writes `id` in its text form.
pub fn format_user_id(id: u128) -> (r: Vec<u8>)
    ensures
        r@ == uuid_seq(id),
{
    let mut h: Vec<u8> = Vec::new();
    push_hex(&mut h, id, 32);
    proof {
        lemma_hex_seq_len(id as nat, 32);
    }
    let hs = h.as_slice();
    let mut out: Vec<u8> = Vec::new();
    push_all(&mut out, slice_subrange(hs, 0, 8));
    out.push(DASH);
    push_all(&mut out, slice_subrange(hs, 8, 12));
    out.push(DASH);
    push_all(&mut out, slice_subrange(hs, 12, 16));
    out.push(DASH);
    push_all(&mut out, slice_subrange(hs, 16, 20));
    out.push(DASH);
    push_all(&mut out, slice_subrange(hs, 20, 32));
    proof {
        assert(out@ =~= uuid_seq(id));
    }
    out
}

/// Reads an identifier back from its text form.
pub fn parse_user_id(s: &[u8]) -> (r: Option<u128>)
    ensures
        match r {
            Some(v) => uuid_val(s@) == Some(v as nat),
            None => uuid_val(s@) is None,
        },
{
    if s.len() != 36 {
        return None;
    }
    if *slice_index_get(s, 8) != DASH || *slice_index_get(s, 13) != DASH || *slice_index_get(
        s,
        18,
    ) != DASH || *slice_index_get(s, 23) != DASH {
        return None;
    }
    let mut stripped: Vec<u8> = Vec::new();
    push_all(&mut stripped, slice_subrange(s, 0, 8));
    push_all(&mut stripped, slice_subrange(s, 9, 13));
    push_all(&mut stripped, slice_subrange(s, 14, 18));
    push_all(&mut stripped, slice_subrange(s, 19, 23));
    push_all(&mut stripped, slice_subrange(s, 24, 36));
    proof {
        assert(stripped@ =~= uuid_stripped(s@));
    }
    parse_hex(stripped.as_slice())
}

/// Writing an identifier and reading it back gives the identifier.
pub proof fn lemma_user_id_roundtrip(id: u128)
    ensures
        uuid_val(uuid_seq(id)) == Some(id as nat),
{
    let h = hex_seq(id as nat, 32);
    lemma_hex_seq_len(id as nat, 32);
    let s = uuid_seq(id);
    assert(s.len() == 36);
    assert(s[8] == DASH);
    assert(s[13] == DASH);
    assert(s[18] == DASH);
    assert(s[23] == DASH);
    assert(uuid_stripped(s) =~= h);
    lemma_pow16_vals();
    lemma_hex_roundtrip(id as nat, 32);
}

/// The bytes of a bearer scheme marker: `Bearer` and one space.
pub open spec fn bearer_prefix() -> Seq<u8> {
    seq![0x42u8, 0x65u8, 0x61u8, 0x72u8, 0x65u8, 0x72u8, 0x20u8]
}

/// The view of an optional byte slice.
pub open spec fn opt_seq(o: Option<&[u8]>) -> Option<Seq<u8>> {
    match o {
        Some(s) => Some(s@),
        None => None,
    }
}

/// Token discovery: the session cookie wins where both channels are present;
/// otherwise an authorization header carrying the bearer marker; otherwise
/// no credentials at all.
pub open spec fn discovered_token(cookie: Option<Seq<u8>>, header: Option<Seq<u8>>) -> Option<
    Seq<u8>,
> {
    match cookie {
        Some(c) => Some(c),
        None => match header {
            Some(h) => if h.len() >= 7 && h.subrange(0, 7) == bearer_prefix() {
                Some(h.skip(7))
            } else {
                None
            },
            None => None,
        },
    }
}

/// Locates the candidate token on a request, per `discovered_token`.
pub fn find_token(cookie: Option<&[u8]>, header: Option<&[u8]>) -> (r: Option<Vec<u8>>)
    ensures
        match r {
            Some(t) => discovered_token(opt_seq(cookie), opt_seq(header)) == Some(t@),
            None => discovered_token(opt_seq(cookie), opt_seq(header)) is None,
        },
{
    match cookie {
        Some(c) => Some(slice_to_vec(c)),
        None => match header {
            Some(h) => {
                if h.len() >= 7 && *slice_index_get(h, 0) == 0x42 && *slice_index_get(h, 1)
                    == 0x65 && *slice_index_get(h, 2) == 0x61 && *slice_index_get(h, 3) == 0x72
                    && *slice_index_get(h, 4) == 0x65 && *slice_index_get(h, 5) == 0x72
                    && *slice_index_get(h, 6) == 0x20 {
                    proof {
                        assert(h@.subrange(0, 7) =~= bearer_prefix());
                    }
                    Some(slice_to_vec(slice_subrange(h, 7, h.len())))
                } else {
                    proof {
                        if h@.len() >= 7 && h@.subrange(0, 7) == bearer_prefix() {
                            assert(h@.subrange(0, 7)[0] == 0x42);
                            assert(h@.subrange(0, 7)[1] == 0x65);
                            assert(h@.subrange(0, 7)[2] == 0x61);
                            assert(h@.subrange(0, 7)[3] == 0x72);
                            assert(h@.subrange(0, 7)[4] == 0x65);
                            assert(h@.subrange(0, 7)[5] == 0x72);
                            assert(h@.subrange(0, 7)[6] == 0x20);
                        }
                    }
                    None
                }
            },
            None => None,
        },
    }
}

/// What subject resolution yields from the two channels: the identifier the
/// token's subject spells, or `Unauthenticated` for every failure on the way
/// — no token, a token that does not decode, a subject that is no
/// identifier.
pub open spec fn resolved_subject(
    cookie: Option<Seq<u8>>,
    header: Option<Seq<u8>>,
    secret: Seq<u8>,
    now: u64,
) -> Result<u128, AuthError> {
    match discovered_token(cookie, header) {
        None => Err(AuthError::Unauthenticated),
        Some(t) => match decode_spec(t, secret, now) {
            Err(_) => Err(AuthError::Unauthenticated),
            Ok(sub) => match uuid_val(sub) {
                None => Err(AuthError::Unauthenticated),
                Some(v) => Ok(v as u128),
            },
        },
    }
}

/// Finds and decodes the request's token and reads its subject as a user
/// identifier, per `resolved_subject`.
pub fn resolve_subject(
    cookie: Option<&[u8]>,
    header: Option<&[u8]>,
    secret: &[u8],
    now: u64,
) -> (r: Result<u128, AuthError>)
    ensures
        r == resolved_subject(opt_seq(cookie), opt_seq(header), secret@, now),
{
    match find_token(cookie, header) {
        None => Err(AuthError::Unauthenticated),
        Some(t) => match decode(t.as_slice(), secret, now) {
            Err(_) => Err(AuthError::Unauthenticated),
            Ok(sub) => match parse_user_id(sub.as_slice()) {
                None => Err(AuthError::Unauthenticated),
                Some(id) => Ok(id),
            },
        },
    }
}

/// What the resolver concludes from the store's answer: the record, or
/// `Unauthenticated` for a user that no longer exists, or a server error for
/// a store that could not answer — the caller must not confuse bad
/// credentials with an unreachable store.
pub open spec fn identity_of(outcome: LookupOutcome) -> Result<UserRecord, AuthError> {
    match outcome {
        LookupOutcome::Found(u) => Ok(u),
        LookupOutcome::Missing => Err(AuthError::Unauthenticated),
        LookupOutcome::StoreFailure => Err(AuthError::Server),
    }
}

/// Concludes identity resolution from the store's answer, per `identity_of`.
pub fn resolve_identity(outcome: LookupOutcome) -> (r: Result<UserRecord, AuthError>)
    ensures
        r == identity_of(outcome),
{
    match outcome {
        LookupOutcome::Found(u) => Ok(u),
        LookupOutcome::Missing => Err(AuthError::Unauthenticated),
        LookupOutcome::StoreFailure => Err(AuthError::Server),
    }
}

} // verus!
