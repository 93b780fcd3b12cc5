//! The session-token codec.
//!
//! A token carries a claim set — subject, issued-at, expiry — serialized as
//! `subject '.' iat '.' exp '.' tag`, where the two timestamps are sixteen
//! lowercase hex digits each, and the tag is the HMAC-SHA-256 of everything
//! before its dot, spelled as sixty-four hex digits. The subject may hold any
//! bytes: parsing works from the end of the string, over the fixed widths.
//!
//! Decoding verifies the tag against the caller's secret before anything
//! else; only a token whose signature verifies can reach the expiry check,
//! and expiry is strict: a token is already refused at the instant
//! `now == exp`. The two failure kinds stay distinct so a caller can tell a
//! bad token from a stale one.
//!
//! The clock is the caller's: both operations take the current Unix time as
//! an argument, so the surrounding process supplies its clock once, at the
//! edge.

use hmac::Mac;
use vstd::prelude::*;

use crate::hexfmt::bytes_hex;
use crate::hexfmt::hex_seq;
use crate::hexfmt::hex_val;
use crate::hexfmt::lemma_bytes_hex_injective;
use crate::hexfmt::lemma_bytes_hex_len;
use crate::hexfmt::lemma_hex_roundtrip;
use crate::hexfmt::lemma_hex_seq_len;
use crate::hexfmt::lemma_pow16_vals;
use crate::hexfmt::bytes_eq;
use crate::hexfmt::parse_hex;
use crate::hexfmt::push_all;
use crate::hexfmt::push_bytes_hex;
use crate::hexfmt::push_hex;
use vstd::slice::slice_index_get;
use vstd::slice::slice_subrange;
use vstd::slice::slice_to_vec;

verus! {

/// The separator between the serialized fields.
pub const DOT: u8 = 0x2e;

/// Why a token was refused: a forged or malformed token is told apart from a
/// genuine but stale one.
#[derive(Clone, Copy, Debug, PartialEq, Eq, Structural)]
pub enum TokenError {
    /// The structure is malformed or the signature does not verify.
    Invalid,
    /// The signature verifies but the expiry time has been reached.
    Expired,
}

/// What HMAC-SHA-256 returns for a key and a message: a function of the two
/// arguments alone.
pub uninterp spec fn hmac_sha256_of(key: Seq<u8>, msg: Seq<u8>) -> Seq<u8>;

/// Relies on `hmac::Hmac<sha2::Sha256>` (`new_from_slice`, `update`,
/// `finalize`): the tag depends on the key and the message alone and is 32
/// bytes, SHA-256's output size. `new_from_slice` accepts a key of any
/// length, so the construction cannot fail.
#[verifier::external_body]
fn hmac_sha256(key: &[u8], msg: &[u8]) -> (tag: Vec<u8>)
    ensures
        tag@ == hmac_sha256_of(key@, msg@),
        tag@.len() == 32,
{
    let mut mac = <hmac::Hmac<sha2::Sha256> as Mac>::new_from_slice(key)
        .expect("a key of any length is accepted");
    mac.update(msg);
    mac.finalize().into_bytes().to_vec()
}

/// The signed part of a token: subject, issued-at, expiry, separated by dots.
pub open spec fn payload_seq(subject: Seq<u8>, iat: u64, exp: u64) -> Seq<u8> {
    subject + seq![DOT] + hex_seq(iat as nat, 16) + seq![DOT] + hex_seq(exp as nat, 16)
}

/// The full serialized token: the payload, a dot, and the payload's tag
/// under `key`, spelled in hex.
pub open spec fn token_seq(subject: Seq<u8>, iat: u64, exp: u64, key: Seq<u8>) -> Seq<u8> {
    payload_seq(subject, iat, exp) + seq![DOT] + bytes_hex(
        hmac_sha256_of(key, payload_seq(subject, iat, exp)),
    )
}

/// Structural validity: long enough for the three fixed-width fields, dots
/// where the format puts them, and an expiry that reads as hex. The
/// issued-at field is covered by the signature and not read back.
pub open spec fn token_well_formed(t: Seq<u8>) -> bool {
    &&& t.len() >= 99
    &&& t[t.len() - 99] == DOT
    &&& t[t.len() - 82] == DOT
    &&& t[t.len() - 65] == DOT
    &&& hex_val(t.subrange(t.len() - 81, t.len() - 65)) is Some
}

/// Everything the tag signs: the token up to the tag's dot.
pub open spec fn token_payload(t: Seq<u8>) -> Seq<u8> {
    t.subrange(0, t.len() - 65)
}

/// The subject field: the token up to the first fixed-position dot.
pub open spec fn token_subject(t: Seq<u8>) -> Seq<u8> {
    t.subrange(0, t.len() - 99)
}

/// The recorded tag, as the sixty-four hex digits at the end.
pub open spec fn token_tag_hex(t: Seq<u8>) -> Seq<u8> {
    t.subrange(t.len() - 64, t.len() as int)
}

/// The expiry the token claims, read from its hex field.
pub open spec fn token_exp_val(t: Seq<u8>) -> nat {
    match hex_val(t.subrange(t.len() - 81, t.len() - 65)) {
        Some(v) => v,
        None => 0,
    }
}

/// What decoding returns: `Invalid` on a malformed structure or a tag that is
/// not the HMAC of the payload under `key`; otherwise `Expired` once `now`
/// has reached the claimed expiry; otherwise the subject.
pub open spec fn decode_spec(t: Seq<u8>, key: Seq<u8>, now: u64) -> Result<Seq<u8>, TokenError> {
    if !token_well_formed(t) {
        Err(TokenError::Invalid)
    } else if token_tag_hex(t) != bytes_hex(hmac_sha256_of(key, token_payload(t))) {
        Err(TokenError::Invalid)
    } else if now as nat >= token_exp_val(t) {
        Err(TokenError::Expired)
    } else {
        Ok(token_subject(t))
    }
}

/// Issues the token for `subject` at time `now` with the configured maximum
/// age: the claim set is fixed by the arguments, and the expiry is exactly
/// `now + max_age`. The second clause hands callers what the signing
/// primitive returned — a 32-byte tag — which the codec lemmas take as
/// their premise.
pub fn issue(subject: &[u8], secret: &[u8], max_age: u64, now: u64) -> (t: Vec<u8>)
    requires
        now + max_age <= u64::MAX,
    ensures
        t@ == token_seq(subject@, now, (now + max_age) as u64, secret@),
        hmac_sha256_of(secret@, payload_seq(subject@, now, (now + max_age) as u64)).len() == 32,
{
    let exp: u64 = now + max_age;
    let mut payload: Vec<u8> = Vec::new();
    push_all(&mut payload, subject);
    payload.push(DOT);
    push_hex(&mut payload, now as u128, 16);
    payload.push(DOT);
    push_hex(&mut payload, exp as u128, 16);
    proof {
        assert(payload@ =~= payload_seq(subject@, now, exp));
    }
    let tag = hmac_sha256(secret, payload.as_slice());
    let ghost p = payload@;
    let mut t = payload;
    t.push(DOT);
    push_bytes_hex(&mut t, tag.as_slice());
    proof {
        assert(t@ =~= token_seq(subject@, now, exp, secret@));
    }
    t
}

/// Decodes `token` under `secret` at time `now`, per `decode_spec`: the
/// signature is checked first, then the strict expiry bound, and only then
/// is the subject handed back.
pub fn decode(token: &[u8], secret: &[u8], now: u64) -> (r: Result<Vec<u8>, TokenError>)
    ensures
        r matches Ok(s) ==> decode_spec(token@, secret@, now) == Ok::<Seq<u8>, TokenError>(s@),
        r matches Err(e) ==> decode_spec(token@, secret@, now) == Err::<Seq<u8>, TokenError>(e),
{
    let n = token.len();
    if n < 99 {
        return Err(TokenError::Invalid);
    }
    let d1 = *slice_index_get(token, n - 99);
    let d2 = *slice_index_get(token, n - 82);
    let d3 = *slice_index_get(token, n - 65);
    if d1 != DOT || d2 != DOT || d3 != DOT {
        return Err(TokenError::Invalid);
    }
    let exp_region = slice_subrange(token, n - 81, n - 65);
    let exp_v: u128 = match parse_hex(exp_region) {
        Some(v) => v,
        None => {
            return Err(TokenError::Invalid);
        },
    };
    let payload = slice_subrange(token, 0, n - 65);
    let tag = hmac_sha256(secret, payload);
    let mut tag_hex: Vec<u8> = Vec::new();
    push_bytes_hex(&mut tag_hex, tag.as_slice());
    let given = slice_subrange(token, n - 64, n);
    if !bytes_eq(given, tag_hex.as_slice()) {
        return Err(TokenError::Invalid);
    }
    if (now as u128) >= exp_v {
        return Err(TokenError::Expired);
    }
    let subject = slice_to_vec(slice_subrange(token, 0, n - 99));
    Ok(subject)
}

/// The shape of a freshly issued token, stated once: where the fields sit,
/// that it is well formed, and that its recorded tag is its payload's tag.
/// The premise names what the primitive returns: a 32-byte tag.
pub proof fn lemma_token_structure(subject: Seq<u8>, iat: u64, exp: u64, key: Seq<u8>)
    requires
        hmac_sha256_of(key, payload_seq(subject, iat, exp)).len() == 32,
    ensures
        ({
            let t = token_seq(subject, iat, exp, key);
            &&& t.len() == subject.len() + 99
            &&& token_well_formed(t)
            &&& token_payload(t) == payload_seq(subject, iat, exp)
            &&& token_subject(t) == subject
            &&& token_tag_hex(t) == bytes_hex(hmac_sha256_of(key, payload_seq(subject, iat, exp)))
            &&& token_exp_val(t) == exp as nat
        }),
{
    let p = payload_seq(subject, iat, exp);
    let tag = hmac_sha256_of(key, p);
    let t = token_seq(subject, iat, exp, key);
    lemma_hex_seq_len(iat as nat, 16);
    lemma_hex_seq_len(exp as nat, 16);
    lemma_bytes_hex_len(tag);
    assert(p.len() == subject.len() + 34);
    assert(t.len() == subject.len() + 99);
    assert(token_payload(t) =~= p);
    assert(token_subject(t) =~= subject);
    assert(token_tag_hex(t) =~= bytes_hex(tag));
    assert(t.subrange(t.len() - 81, t.len() - 65) =~= hex_seq(exp as nat, 16));
    lemma_pow16_vals();
    lemma_hex_roundtrip(exp as nat, 16);
    assert(t[t.len() - 99] == DOT);
    assert(t[t.len() - 82] == DOT);
    assert(t[t.len() - 65] == DOT);
}

/// Round trip: a token issued for `subject` under `key` decodes to `subject`
/// under the same key at any time strictly before issuance plus the maximum
/// age. The tag-length premise names what the primitive returns.
pub proof fn lemma_issue_then_decode(
    subject: Seq<u8>,
    key: Seq<u8>,
    iat: u64,
    max_age: u64,
    now: u64,
)
    requires
        iat + max_age <= u64::MAX,
        now < iat + max_age,
        hmac_sha256_of(key, payload_seq(subject, iat, (iat + max_age) as u64)).len() == 32,
    ensures
        decode_spec(token_seq(subject, iat, (iat + max_age) as u64, key), key, now)
            == Ok::<Seq<u8>, TokenError>(subject),
{
    lemma_token_structure(subject, iat, (iat + max_age) as u64, key);
}

/// Strict expiry: the same genuine token is refused as `Expired` at the
/// instant its expiry is reached and ever after, though its signature still
/// verifies.
pub proof fn lemma_decode_expired(subject: Seq<u8>, key: Seq<u8>, iat: u64, exp: u64, now: u64)
    requires
        hmac_sha256_of(key, payload_seq(subject, iat, exp)).len() == 32,
        now >= exp,
    ensures
        decode_spec(token_seq(subject, iat, exp, key), key, now)
            == Err::<Seq<u8>, TokenError>(TokenError::Expired),
{
    lemma_token_structure(subject, iat, exp, key);
}

/// A token issued under one key is refused as `Invalid` under another,
/// whenever the two keys' tags on this payload differ — two keys whose tags
/// collide on the payload are the one case left out.
pub proof fn lemma_decode_wrong_secret(
    subject: Seq<u8>,
    iat: u64,
    exp: u64,
    issue_key: Seq<u8>,
    other_key: Seq<u8>,
    now: u64,
)
    requires
        hmac_sha256_of(issue_key, payload_seq(subject, iat, exp)).len() == 32,
        hmac_sha256_of(other_key, payload_seq(subject, iat, exp)) != hmac_sha256_of(
            issue_key,
            payload_seq(subject, iat, exp),
        ),
    ensures
        decode_spec(token_seq(subject, iat, exp, issue_key), other_key, now)
            == Err::<Seq<u8>, TokenError>(TokenError::Invalid),
{
    lemma_token_structure(subject, iat, exp, issue_key);
    let p = payload_seq(subject, iat, exp);
    let tag1 = hmac_sha256_of(issue_key, p);
    let tag2 = hmac_sha256_of(other_key, p);
    assert(bytes_hex(tag2) != bytes_hex(tag1)) by {
        if bytes_hex(tag2) == bytes_hex(tag1) {
            lemma_bytes_hex_len(tag1);
            lemma_bytes_hex_len(tag2);
            lemma_bytes_hex_injective(tag2, tag1);
        }
    }
}

/// Tampering with any byte of a genuine token's tag invalidates it: the
/// altered tag no longer equals the payload's tag, so decoding refuses the
/// token as `Invalid` under the issuing key at any time.
pub proof fn lemma_tamper_tag(
    subject: Seq<u8>,
    iat: u64,
    exp: u64,
    key: Seq<u8>,
    now: u64,
    t2: Seq<u8>,
    i: int,
)
    requires
        hmac_sha256_of(key, payload_seq(subject, iat, exp)).len() == 32,
        t2.len() == token_seq(subject, iat, exp, key).len(),
        token_seq(subject, iat, exp, key).len() - 64 <= i < token_seq(subject, iat, exp, key).len(),
        t2[i] != token_seq(subject, iat, exp, key)[i],
        forall|j: int|
            0 <= j < t2.len() && j != i ==> t2[j] == token_seq(subject, iat, exp, key)[j],
    ensures
        decode_spec(t2, key, now) == Err::<Seq<u8>, TokenError>(TokenError::Invalid),
{
    lemma_token_structure(subject, iat, exp, key);
    let t = token_seq(subject, iat, exp, key);
    assert(t2.subrange(t2.len() - 81, t2.len() - 65) =~= t.subrange(t.len() - 81, t.len() - 65));
    assert(token_payload(t2) =~= token_payload(t));
    assert(token_well_formed(t2));
    assert(token_tag_hex(t2)[i - (t2.len() - 64)] != token_tag_hex(t)[i - (t.len() - 64)]);
    assert(token_tag_hex(t2) != bytes_hex(hmac_sha256_of(key, token_payload(t2))));
}

/// Tampering with any byte before a genuine token's tag — its subject, its
/// timestamps, or a separator — invalidates it, whenever the altered
/// payload's tag differs from the genuine payload's tag: an alteration that
/// collides the HMAC is the one case left out.
pub proof fn lemma_tamper_payload(
    subject: Seq<u8>,
    iat: u64,
    exp: u64,
    key: Seq<u8>,
    now: u64,
    t2: Seq<u8>,
    i: int,
)
    requires
        hmac_sha256_of(key, payload_seq(subject, iat, exp)).len() == 32,
        t2.len() == token_seq(subject, iat, exp, key).len(),
        0 <= i < token_seq(subject, iat, exp, key).len() - 64,
        t2[i] != token_seq(subject, iat, exp, key)[i],
        forall|j: int|
            0 <= j < t2.len() && j != i ==> t2[j] == token_seq(subject, iat, exp, key)[j],
        hmac_sha256_of(key, token_payload(t2)) != hmac_sha256_of(
            key,
            payload_seq(subject, iat, exp),
        ),
    ensures
        decode_spec(t2, key, now) == Err::<Seq<u8>, TokenError>(TokenError::Invalid),
{
    lemma_token_structure(subject, iat, exp, key);
    let t = token_seq(subject, iat, exp, key);
    let tag1 = hmac_sha256_of(key, payload_seq(subject, iat, exp));
    let tag2 = hmac_sha256_of(key, token_payload(t2));
    if token_well_formed(t2) {
        assert(token_tag_hex(t2) =~= token_tag_hex(t));
        assert(bytes_hex(tag2) != bytes_hex(tag1)) by {
            if bytes_hex(tag2) == bytes_hex(tag1) {
                lemma_bytes_hex_len(tag1);
                lemma_bytes_hex_len(tag2);
                lemma_bytes_hex_injective(tag2, tag1);
            }
        }
    }
}

/// Any byte string whose recorded tag is not the HMAC of its own payload
/// under `key` is refused as `Invalid`, malformed or not. Together with
/// `lemma_tamper_tag` this is the tampering guarantee: an altered payload is
/// rejected unless the alteration preserves the payload's tag.
pub proof fn lemma_forgery_rejected(t: Seq<u8>, key: Seq<u8>, now: u64)
    requires
        token_well_formed(t) ==> token_tag_hex(t) != bytes_hex(
            hmac_sha256_of(key, token_payload(t)),
        ),
    ensures
        decode_spec(t, key, now) == Err::<Seq<u8>, TokenError>(TokenError::Invalid),
{
}

} // verus!
