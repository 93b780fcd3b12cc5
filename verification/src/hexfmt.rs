//! Fixed-width lowercase hexadecimal text.
//!
//! The session-token format and the user-identifier text form both spell
//! integers and byte strings as lowercase hex digits. This module defines
//! that spelling once, as spec functions, proves it round-trips, and gives
//! the executable encoders and parsers exact contracts against it.

use vstd::prelude::*;

verus! {

/// The lowercase hex digit character for a value below 16.
pub open spec fn nibble_char(v: u8) -> u8 {
    if v < 10 {
        (0x30 + v) as u8
    } else {
        (0x57 + v) as u8
    }
}

/// The value of a lowercase hex digit character, `None` for any other byte.
pub open spec fn nibble_val(c: u8) -> Option<u8> {
    if 0x30 <= c <= 0x39 {
        Some((c - 0x30) as u8)
    } else if 0x61 <= c <= 0x66 {
        Some((c - 0x61 + 10) as u8)
    } else {
        None
    }
}

/// `n` written as exactly `width` lowercase hex digits, most significant
/// first. Digits beyond `width` are dropped; callers bound `n` by
/// `pow16(width)` where the spelling must be faithful.
pub open spec fn hex_seq(n: nat, width: nat) -> Seq<u8>
    decreases width,
{
    if width == 0 {
        Seq::empty()
    } else {
        hex_seq(n / 16, (width - 1) as nat).push(nibble_char((n % 16) as u8))
    }
}

/// The value of a string of lowercase hex digits; `None` where any byte is
/// not such a digit. The empty string reads as zero.
pub open spec fn hex_val(s: Seq<u8>) -> Option<nat>
    decreases s.len(),
{
    if s.len() == 0 {
        Some(0)
    } else {
        match (hex_val(s.drop_last()), nibble_val(s.last())) {
            (Some(v), Some(d)) => Some((v * 16 + d) as nat),
            _ => None,
        }
    }
}

/// 16 to the power `w`: the number of values `w` hex digits can spell.
pub open spec fn pow16(w: nat) -> nat
    decreases w,
{
    if w == 0 {
        1
    } else {
        16 * pow16((w - 1) as nat)
    }
}

/// Each byte as two lowercase hex digits, in byte order.
pub open spec fn bytes_hex(b: Seq<u8>) -> Seq<u8>
    decreases b.len(),
{
    if b.len() == 0 {
        Seq::empty()
    } else {
        bytes_hex(b.drop_last()) + hex_seq(b.last() as nat, 2)
    }
}

/// A hex digit character reads back as the value it spells.
pub proof fn lemma_nibble_roundtrip(v: u8)
    requires
        v < 16,
    ensures
        nibble_val(nibble_char(v)) == Some(v),
{
}

/// A fixed-width spelling has exactly that width.
pub broadcast proof fn lemma_hex_seq_len(n: nat, width: nat)
    ensures
        (#[trigger] hex_seq(n, width)).len() == width,
    decreases width,
{
    if width > 0 {
        lemma_hex_seq_len(n / 16, (width - 1) as nat);
    }
}

/// The byte-string spelling is twice as long as the bytes.
pub broadcast proof fn lemma_bytes_hex_len(b: Seq<u8>)
    ensures
        (#[trigger] bytes_hex(b)).len() == 2 * b.len(),
    decreases b.len(),
{
    if b.len() > 0 {
        lemma_bytes_hex_len(b.drop_last());
        lemma_hex_seq_len(b.last() as nat, 2);
    }
}

/// What a string of hex digits can spell is bounded by its width.
pub proof fn lemma_hex_val_bound(s: Seq<u8>)
    ensures
        hex_val(s) matches Some(v) ==> v < pow16(s.len()),
    decreases s.len(),
{
    if s.len() > 0 {
        lemma_hex_val_bound(s.drop_last());
    }
}

/// `pow16` is monotonic.
pub proof fn lemma_pow16_mono(a: nat, b: nat)
    requires
        a <= b,
    ensures
        pow16(a) <= pow16(b),
    decreases b,
{
    if a < b {
        lemma_pow16_mono(a, (b - 1) as nat);
    }
}

/// The concrete powers the token and identifier widths rely on.
pub proof fn lemma_pow16_vals()
    ensures
        pow16(2) == 0x100,
        pow16(16) == 0x1_0000_0000_0000_0000,
        pow16(32) == 0x1_0000_0000_0000_0000_0000_0000_0000_0000,
{
    reveal_with_fuel(pow16, 33);
}

/// Encoding then parsing gives the value back, for values the width can hold.
pub proof fn lemma_hex_roundtrip(n: nat, width: nat)
    requires
        n < pow16(width),
    ensures
        hex_val(hex_seq(n, width)) == Some(n),
    decreases width,
{
    if width == 0 {
        assert(hex_seq(n, width) =~= Seq::<u8>::empty());
    } else {
        assert(n / 16 < pow16((width - 1) as nat)) by {
            assert(pow16(width) == 16 * pow16((width - 1) as nat));
        }
        lemma_hex_roundtrip(n / 16, (width - 1) as nat);
        lemma_nibble_roundtrip((n % 16) as u8);
        assert(hex_seq(n, width).drop_last() =~= hex_seq(n / 16, (width - 1) as nat));
        assert(hex_seq(n, width).last() == nibble_char((n % 16) as u8));
    }
}

/// Two byte strings of one length with the same spelling are the same.
pub proof fn lemma_bytes_hex_injective(a: Seq<u8>, b: Seq<u8>)
    requires
        a.len() == b.len(),
        bytes_hex(a) == bytes_hex(b),
    ensures
        a == b,
    decreases a.len(),
{
    if a.len() > 0 {
        let fa = bytes_hex(a.drop_last());
        let fb = bytes_hex(b.drop_last());
        let la = hex_seq(a.last() as nat, 2);
        let lb = hex_seq(b.last() as nat, 2);
        lemma_bytes_hex_len(a.drop_last());
        lemma_bytes_hex_len(b.drop_last());
        lemma_hex_seq_len(a.last() as nat, 2);
        lemma_hex_seq_len(b.last() as nat, 2);
        assert(fa =~= bytes_hex(a).subrange(0, fa.len() as int));
        assert(fb =~= bytes_hex(b).subrange(0, fb.len() as int));
        assert(la =~= bytes_hex(a).subrange(fa.len() as int, bytes_hex(a).len() as int));
        assert(lb =~= bytes_hex(b).subrange(fb.len() as int, bytes_hex(b).len() as int));
        lemma_pow16_vals();
        lemma_hex_roundtrip(a.last() as nat, 2);
        lemma_hex_roundtrip(b.last() as nat, 2);
        lemma_bytes_hex_injective(a.drop_last(), b.drop_last());
        assert(a =~= b) by {
            assert(forall|i: int| 0 <= i < a.len() - 1 ==> a[i] == a.drop_last()[i] && b[i]
                == b.drop_last()[i]);
        }
    } else {
        assert(a =~= b);
    }
}

/// A hex parse that failed on a prefix fails on the whole string.
pub proof fn lemma_hex_val_prefix_none(s: Seq<u8>, k: int)
    requires
        0 <= k <= s.len(),
        hex_val(s.take(k)) is None,
    ensures
        hex_val(s) is None,
    decreases s.len() - k,
{
    if k < s.len() {
        assert(s.take(k + 1).drop_last() =~= s.take(k));
        lemma_hex_val_prefix_none(s, k + 1);
    } else {
        assert(s.take(k) =~= s);
    }
}

/// The executable form of `nibble_char`.
pub fn nibble_char_byte(v: u8) -> (r: u8)
    requires
        v < 16,
    ensures
        r == nibble_char(v),
{
    if v < 10 {
        0x30 + v
    } else {
        0x57 + v
    }
}

/// The executable form of `nibble_val`.
pub fn nibble_val_byte(c: u8) -> (r: Option<u8>)
    ensures
        r == nibble_val(c),
{
    if 0x30 <= c && c <= 0x39 {
        Some(c - 0x30)
    } else if 0x61 <= c && c <= 0x66 {
        Some(c - 0x61 + 10)
    } else {
        None
    }
}

/// Appends `n` as exactly `width` lowercase hex digits.
pub fn push_hex(out: &mut Vec<u8>, n: u128, width: usize)
    ensures
        final(out)@ == old(out)@ + hex_seq(n as nat, width as nat),
    decreases width,
{
    if width == 0 {
        proof {
            assert(old(out)@ + hex_seq(n as nat, 0) =~= old(out)@);
        }
    } else {
        push_hex(out, n / 16, width - 1);
        out.push(nibble_char_byte((n % 16) as u8));
        proof {
            assert(out@ =~= old(out)@ + hex_seq(n as nat, width as nat));
        }
    }
}

/// Appends every element of `src`.
pub fn push_all(out: &mut Vec<u8>, src: &[u8])
    ensures
        final(out)@ == old(out)@ + src@,
{
    let mut i: usize = 0;
    proof {
        assert(out@ =~= old(out)@ + src@.take(0));
    }
    while i < src.len()
        invariant
            i <= src@.len(),
            out@ == old(out)@ + src@.take(i as int),
        decreases src@.len() - i,
    {
        out.push(*vstd::slice::slice_index_get(src, i));
        proof {
            assert(out@ =~= old(out)@ + src@.take(i + 1));
        }
        i = i + 1;
    }
    proof {
        assert(old(out)@ + src@.take(src@.len() as int) =~= old(out)@ + src@);
    }
}

/// Appends the two-digit spelling of every byte of `b`.
pub fn push_bytes_hex(out: &mut Vec<u8>, b: &[u8])
    ensures
        final(out)@ == old(out)@ + bytes_hex(b@),
{
    let mut i: usize = 0;
    proof {
        assert(b@.take(0) =~= Seq::<u8>::empty());
        assert(out@ =~= old(out)@ + bytes_hex(b@.take(0)));
    }
    while i < b.len()
        invariant
            i <= b@.len(),
            out@ == old(out)@ + bytes_hex(b@.take(i as int)),
        decreases b@.len() - i,
    {
        let byte = *vstd::slice::slice_index_get(b, i);
        push_hex(out, byte as u128, 2);
        proof {
            assert(b@.take(i + 1).drop_last() =~= b@.take(i as int));
            assert(b@.take(i + 1).last() == b@[i as int]);
            assert(bytes_hex(b@.take(i + 1)) == bytes_hex(b@.take(i as int)) + hex_seq(
                byte as nat,
                2,
            ));
            assert(out@ =~= old(out)@ + bytes_hex(b@.take(i + 1)));
        }
        i = i + 1;
    }
    proof {
        assert(b@.take(b@.len() as int) =~= b@);
    }
}

/// Parses up to 32 lowercase hex digits into the value they spell.
pub fn parse_hex(s: &[u8]) -> (r: Option<u128>)
    requires
        s@.len() <= 32,
    ensures
        match r {
            Some(v) => hex_val(s@) == Some(v as nat),
            None => hex_val(s@) is None,
        },
{
    let n = s.len();
    let mut acc: u128 = 0;
    let mut i: usize = 0;
    proof {
        assert(s@.take(0) =~= Seq::<u8>::empty());
    }
    while i < n
        invariant
            n == s@.len(),
            n <= 32,
            i <= n,
            hex_val(s@.take(i as int)) == Some(acc as nat),
        decreases n - i,
    {
        let c = *vstd::slice::slice_index_get(s, i);
        proof {
            assert(s@.take(i + 1).drop_last() =~= s@.take(i as int));
            assert(s@.take(i + 1).last() == s@[i as int]);
        }
        match nibble_val_byte(c) {
            Some(d) => {
                proof {
                    lemma_hex_val_bound(s@.take(i as int));
                    lemma_pow16_mono(i as nat, 31);
                    lemma_pow16_vals();
                    assert(pow16(32) == 16 * pow16(31));
                }
                acc = acc * 16 + (d as u128);
            },
            None => {
                proof {
                    lemma_hex_val_prefix_none(s@, i + 1);
                }
                return None;
            },
        }
        i = i + 1;
    }
    proof {
        assert(s@.take(n as int) =~= s@);
    }
    Some(acc)
}

/// Whether two byte strings are equal. Strings of one length are compared
/// to the end, accumulating a flag, so how early the contents diverge is
/// not observable in the running time; only the lengths decide early.
pub fn bytes_eq(a: &[u8], b: &[u8]) -> (r: bool)
    ensures
        r == (a@ == b@),
{
    if a.len() != b.len() {
        return false;
    }
    let mut same: bool = true;
    let mut i: usize = 0;
    while i < a.len()
        invariant
            a@.len() == b@.len(),
            i <= a@.len(),
            same == (forall|j: int| 0 <= j < i ==> a@[j] == b@[j]),
        decreases a@.len() - i,
    {
        let here = *vstd::slice::slice_index_get(a, i) == *vstd::slice::slice_index_get(b, i);
        same = same && here;
        i = i + 1;
    }
    proof {
        if same {
            assert(a@ =~= b@);
        }
    }
    same
}

} // verus!
