//! Byte-level primitives shared by the record decoder and encoder:
//! big-endian integer fields, null-terminated strings, text values, and
//! the wire timestamp conversion.

use vstd::prelude::*;
use vstd::slice::slice_subrange;
use vstd::utf8::{decode_utf8, valid_utf8};

verus! {

// ---------------------------------------------------------------------------
// Big-endian integer fields
// ---------------------------------------------------------------------------

/// The 16-bit big-endian value at offset `i`.
pub open spec fn spec_be16(d: Seq<u8>, i: int) -> int {
    d[i] * 0x100 + d[i + 1]
}

/// The 32-bit big-endian value at offset `i`.
pub open spec fn spec_be32(d: Seq<u8>, i: int) -> int {
    d[i] * 0x100_0000 + d[i + 1] * 0x1_0000 + d[i + 2] * 0x100 + d[i + 3]
}

/// The 64-bit big-endian value at offset `i`.
pub open spec fn spec_be64(d: Seq<u8>, i: int) -> int {
    spec_be32(d, i) * 0x1_0000_0000 + spec_be32(d, i + 4)
}

/// Reads the 16-bit big-endian field at `i`.
pub fn be16_at(d: &[u8], i: usize) -> (r: u16)
    requires
        i + 2 <= d@.len(),
    ensures
        r == spec_be16(d@, i as int),
{
    (d[i] as u16) * 0x100 + (d[i + 1] as u16)
}

/// Reads the 32-bit big-endian field at `i`.
pub fn be32_at(d: &[u8], i: usize) -> (r: u32)
    requires
        i + 4 <= d@.len(),
    ensures
        r == spec_be32(d@, i as int),
{
    (d[i] as u32) * 0x100_0000 + (d[i + 1] as u32) * 0x1_0000 + (d[i + 2] as u32) * 0x100 + (d[i
        + 3] as u32)
}

/// Reads the 64-bit big-endian field at `i`.
pub fn be64_at(d: &[u8], i: usize) -> (r: u64)
    requires
        i + 8 <= d@.len(),
    ensures
        r == spec_be64(d@, i as int),
{
    let n = d.len();
    proof {
        assert(i + 4 <= n);
    }
    let hi = be32_at(d, i);
    let lo = be32_at(d, i + 4);
    proof {
        assert(spec_be32(d@, i as int) < 0x1_0000_0000);
        assert(spec_be32(d@, i as int + 4) < 0x1_0000_0000);
    }
    (hi as u64) * 0x1_0000_0000 + (lo as u64)
}

// ---------------------------------------------------------------------------
// Null-terminated strings and text values
// ---------------------------------------------------------------------------

/// The offset of the first zero byte at or after `i`, if any.
pub open spec fn cstr_end(d: Seq<u8>, i: int) -> Option<int>
    decreases d.len() - i,
{
    if i < 0 || i >= d.len() {
        None
    } else if d[i] == 0 {
        Some(i)
    } else {
        cstr_end(d, i + 1)
    }
}

/// A terminator found by [`cstr_end`] lies in range, is a zero byte, and
/// is the first zero byte at or after the start offset.
pub proof fn lemma_cstr_end_props(d: Seq<u8>, i: int)
    requires
        0 <= i <= d.len(),
    ensures
        match cstr_end(d, i) {
            Some(j) => i <= j < d.len() && d[j] == 0 && forall|k: int| i <= k < j ==> d[k] != 0,
            None => forall|k: int| i <= k < d.len() ==> d[k] != 0,
        },
    decreases d.len() - i,
{
    if i < d.len() && d[i] != 0 {
        lemma_cstr_end_props(d, i + 1);
    }
}

/// Finds the first zero byte at or after `i`.
pub fn find_cstr_end(d: &[u8], i: usize) -> (r: Option<usize>)
    requires
        i <= d@.len(),
    ensures
        match r {
            Some(j) => cstr_end(d@, i as int) == Some(j as int),
            None => cstr_end(d@, i as int) is None,
        },
{
    let mut k: usize = i;
    while k < d.len()
        invariant
            i <= k <= d@.len(),
            cstr_end(d@, i as int) == cstr_end(d@, k as int),
        decreases d@.len() - k,
    {
        if d[k] == 0 {
            return Some(k);
        }
        k += 1;
    }
    None
}

/// The text a byte sequence stands for: its UTF-8 decoding where it is
/// valid, and the fixed repaired reading named by [`utf8_lossy_of`]
/// otherwise.
pub open spec fn text_of(b: Seq<u8>) -> Seq<char> {
    if valid_utf8(b) {
        decode_utf8(b)
    } else {
        utf8_lossy_of(b)
    }
}

/// The text that the bytes in `[i, j)` stand for.
pub open spec fn text_at(d: Seq<u8>, i: int, j: int) -> Seq<char> {
    text_of(d.subrange(i, j))
}

/// What `String::from_utf8_lossy` returns for invalid UTF-8: the input
/// with each invalid sequence replaced by the replacement character.
pub uninterp spec fn utf8_lossy_of(b: Seq<u8>) -> Seq<char>;

/// Relies on `String::from_utf8_lossy`: the result depends on the bytes
/// alone, and bytes that are valid UTF-8 convert unchanged.
#[verifier::external_body]
fn lossy_string_from_bytes(b: &[u8]) -> (r: String)
    ensures
        r@ == text_of(b@),
        !valid_utf8(b@) ==> r@ == utf8_lossy_of(b@),
{
    String::from_utf8_lossy(b).into_owned()
}

/// Reads the bytes in `[i, j)` as text.
pub fn string_at(d: &[u8], i: usize, j: usize) -> (r: String)
    requires
        i <= j <= d@.len(),
    ensures
        r@ == text_at(d@, i as int, j as int),
{
    lossy_string_from_bytes(slice_subrange(d, i, j))
}

// ---------------------------------------------------------------------------
// Big-endian encoding
// ---------------------------------------------------------------------------

/// The two big-endian bytes of a 16-bit value.
pub open spec fn spec_be16_bytes(v: u16) -> Seq<u8> {
    seq![(v >> 8) as u8, v as u8]
}

/// The four big-endian bytes of a 32-bit value.
pub open spec fn spec_be32_bytes(v: u32) -> Seq<u8> {
    seq![(v >> 24) as u8, (v >> 16) as u8, (v >> 8) as u8, v as u8]
}

/// The eight big-endian bytes of a 64-bit value.
pub open spec fn spec_be64_bytes(v: u64) -> Seq<u8> {
    seq![
        (v >> 56) as u8,
        (v >> 48) as u8,
        (v >> 40) as u8,
        (v >> 32) as u8,
        (v >> 24) as u8,
        (v >> 16) as u8,
        (v >> 8) as u8,
        v as u8,
    ]
}

/// Appends the big-endian bytes of a 16-bit value.
pub fn push_be16(out: &mut Vec<u8>, v: u16)
    ensures
        final(out)@ =~= old(out)@ + spec_be16_bytes(v),
{
    out.push(#[verifier::truncate] ((v >> 8) as u8));
    out.push(#[verifier::truncate] (v as u8));
}

/// Appends the big-endian bytes of a 32-bit value.
pub fn push_be32(out: &mut Vec<u8>, v: u32)
    ensures
        final(out)@ =~= old(out)@ + spec_be32_bytes(v),
{
    out.push(#[verifier::truncate] ((v >> 24) as u8));
    out.push(#[verifier::truncate] ((v >> 16) as u8));
    out.push(#[verifier::truncate] ((v >> 8) as u8));
    out.push(#[verifier::truncate] (v as u8));
}

/// Appends the big-endian bytes of a 64-bit value.
pub fn push_be64(out: &mut Vec<u8>, v: u64)
    ensures
        final(out)@ =~= old(out)@ + spec_be64_bytes(v),
{
    out.push(#[verifier::truncate] ((v >> 56) as u8));
    out.push(#[verifier::truncate] ((v >> 48) as u8));
    out.push(#[verifier::truncate] ((v >> 40) as u8));
    out.push(#[verifier::truncate] ((v >> 32) as u8));
    out.push(#[verifier::truncate] ((v >> 24) as u8));
    out.push(#[verifier::truncate] ((v >> 16) as u8));
    out.push(#[verifier::truncate] ((v >> 8) as u8));
    out.push(#[verifier::truncate] (v as u8));
}

/// Reading the encoded bytes of a 16-bit value gives the value back.
pub proof fn lemma_be16_roundtrip(v: u16)
    ensures
        spec_be16(spec_be16_bytes(v), 0) == v,
{
    assert(((v >> 8) as u8) * 0x100 + (v as u8) == v) by (bit_vector);
}

/// Reading the encoded bytes of a 32-bit value gives the value back.
pub proof fn lemma_be32_roundtrip(v: u32)
    ensures
        spec_be32(spec_be32_bytes(v), 0) == v,
{
    assert(((v >> 24) as u8) * 0x100_0000 + ((v >> 16) as u8) * 0x1_0000 + ((v >> 8) as u8) * 0x100
        + (v as u8) == v) by (bit_vector);
}

/// Reading the encoded bytes of a 64-bit value gives the value back.
pub proof fn lemma_be64_roundtrip(v: u64)
    ensures
        spec_be64(spec_be64_bytes(v), 0) == v,
{
    assert((((v >> 56) as u8) * 0x100_0000 + ((v >> 48) as u8) * 0x1_0000 + ((v >> 40) as u8)
        * 0x100 + ((v >> 32) as u8)) * 0x1_0000_0000 + (((v >> 24) as u8) * 0x100_0000 + ((v
        >> 16) as u8) * 0x1_0000 + ((v >> 8) as u8) * 0x100 + (v as u8)) == v) by (bit_vector);
}

// ---------------------------------------------------------------------------
// Wire timestamps
// ---------------------------------------------------------------------------

/// Microseconds from the Unix epoch to the wire format's own epoch
/// (midnight at the start of 2000-01-01 UTC).
pub const WIRE_EPOCH_UNIX_MICROS: u64 = 946_684_800_000_000;

/// The signed value that a 64-bit field holds in two's complement.
pub open spec fn as_signed64(v: u64) -> int {
    if v >= 0x8000_0000_0000_0000 {
        v - 0x1_0000_0000_0000_0000
    } else {
        v as int
    }
}

/// A wire timestamp (signed microseconds since the wire epoch) moved to
/// the Unix epoch, with 64-bit wraparound on overflow.
pub open spec fn spec_pg_time_to_unix_micros(raw: u64) -> int {
    as_signed64(vstd::wrapping::u64_specs::wrapping_add(raw, WIRE_EPOCH_UNIX_MICROS))
}

/// Converts a wire timestamp to microseconds since the Unix epoch.
pub fn pg_time_to_unix_micros(raw: u64) -> (r: i64)
    ensures
        r == spec_pg_time_to_unix_micros(raw),
{
    let shifted = raw.wrapping_add(WIRE_EPOCH_UNIX_MICROS);
    if shifted >= 0x8000_0000_0000_0000 {
        -((u64::MAX - shifted) as i64) - 1
    } else {
        shifted as i64
    }
}

} // verus!
