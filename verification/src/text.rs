//! Verified text helpers: string equality, ASCII case folding, and
//! decimal rendering and parsing of integer values.

use vstd::prelude::*;
use vstd::utf8::{decode_utf8, encode_utf8, encode_utf8_decode_utf8};

verus! {

/// Compares two strings by their UTF-8 bytes.
pub fn str_eq(a: &str, b: &str) -> (r: bool)
    ensures
        r == (a@ == b@),
{
    let ab = a.as_bytes();
    let bb = b.as_bytes();
    proof {
        broadcast use encode_utf8_decode_utf8;

        assert(decode_utf8(encode_utf8(a@)) == a@);
        assert(decode_utf8(encode_utf8(b@)) == b@);
    }
    if ab.len() != bb.len() {
        proof {
            assert(encode_utf8(a@) != encode_utf8(b@));
        }
        return false;
    }
    let mut k: usize = 0;
    while k < ab.len()
        invariant
            k <= ab@.len(),
            ab@.len() == bb@.len(),
            ab@ == encode_utf8(a@),
            bb@ == encode_utf8(b@),
            decode_utf8(encode_utf8(a@)) == a@,
            decode_utf8(encode_utf8(b@)) == b@,
            forall|i: int| 0 <= i < k ==> ab@[i] == bb@[i],
        decreases ab@.len() - k,
    {
        if ab[k] != bb[k] {
            proof {
                assert(encode_utf8(a@)[k as int] != encode_utf8(b@)[k as int]);
            }
            return false;
        }
        k += 1;
    }
    proof {
        assert(ab@ =~= bb@);
    }
    true
}

/// The decimal digit character for a value below 10.
pub open spec fn dec_digit(d: int) -> char {
    if d == 0 {
        '0'
    } else if d == 1 {
        '1'
    } else if d == 2 {
        '2'
    } else if d == 3 {
        '3'
    } else if d == 4 {
        '4'
    } else if d == 5 {
        '5'
    } else if d == 6 {
        '6'
    } else if d == 7 {
        '7'
    } else if d == 8 {
        '8'
    } else {
        '9'
    }
}

/// Decimal text of a non-negative value, without leading zeros (a lone
/// `"0"` for zero).
pub open spec fn dec_text(v: int) -> Seq<char>
    decreases v,
{
    if v < 10 {
        seq![dec_digit(v)]
    } else {
        dec_text(v / 10) + seq![dec_digit(v % 10)]
    }
}

/// Decimal text of a signed value: a leading `'-'` for negatives.
pub open spec fn dec_text_signed(v: int) -> Seq<char> {
    if v < 0 {
        seq!['-'] + dec_text(-v)
    } else {
        dec_text(v)
    }
}

fn dec_digit_str(d: u64) -> (r: &'static str)
    requires
        d < 10,
    ensures
        r@ =~= seq![dec_digit(d as int)],
{
    proof {
        reveal_strlit("0");
        reveal_strlit("1");
        reveal_strlit("2");
        reveal_strlit("3");
        reveal_strlit("4");
        reveal_strlit("5");
        reveal_strlit("6");
        reveal_strlit("7");
        reveal_strlit("8");
        reveal_strlit("9");
    }
    match d {
        0 => "0",
        1 => "1",
        2 => "2",
        3 => "3",
        4 => "4",
        5 => "5",
        6 => "6",
        7 => "7",
        8 => "8",
        _ => "9",
    }
}

/// Renders an unsigned value in decimal.
pub fn u64_dec_string(v: u64) -> (r: String)
    ensures
        r@ =~= dec_text(v as int),
    decreases v,
{
    if v < 10 {
        dec_digit_str(v).to_owned()
    } else {
        let mut s = u64_dec_string(v / 10);
        s.append(dec_digit_str(v % 10));
        s
    }
}

/// Renders a signed value in decimal.
pub fn i64_dec_string(v: i64) -> (r: String)
    ensures
        r@ =~= dec_text_signed(v as int),
{
    if v >= 0 {
        u64_dec_string(v as u64)
    } else {
        let magnitude: u64 = (-(v as i128)) as u64;
        let mut s = "-".to_owned();
        proof {
            reveal_strlit("-");
        }
        s.append(u64_dec_string(magnitude).as_str());
        s
    }
}

// ---------------------------------------------------------------------------
// ASCII case folding
// ---------------------------------------------------------------------------

/// An upper-case ASCII letter folded to lower case; everything else is
/// left alone.
pub open spec fn lower_char(c: char) -> char {
    if 'A' <= c <= 'Z' {
        ((c as u8) + 32) as char
    } else {
        c
    }
}

/// A character sequence with its ASCII letters folded to lower case.
pub open spec fn ascii_lower(s: Seq<char>) -> Seq<char> {
    Seq::new(s.len(), |i: int| lower_char(s[i]))
}

/// Folds one character's ASCII case.
pub fn lower_char_exec(c: char) -> (r: char)
    ensures
        r == lower_char(c),
{
    if 'A' <= c && c <= 'Z' {
        ((c as u8) + 32) as char
    } else {
        c
    }
}

/// Whether `a`, folded to ASCII lower case, equals `b` as it stands.
pub fn lower_eq(a: &str, b: &str) -> (r: bool)
    ensures
        r == (ascii_lower(a@) == b@),
{
    let alen = a.unicode_len();
    let blen = b.unicode_len();
    if alen != blen {
        proof {
            assert(ascii_lower(a@).len() != b@.len());
        }
        return false;
    }
    let mut k: usize = 0;
    while k < alen
        invariant
            k <= alen,
            alen == a@.len(),
            alen == b@.len(),
            forall|i: int| 0 <= i < k ==> #[trigger] ascii_lower(a@)[i] == b@[i],
        decreases alen - k,
    {
        let ca = lower_char_exec(a.get_char(k));
        let cb = b.get_char(k);
        if ca != cb {
            proof {
                assert(ascii_lower(a@)[k as int] != b@[k as int]);
            }
            return false;
        }
        k += 1;
    }
    proof {
        assert(ascii_lower(a@) =~= b@);
    }
    true
}

// ---------------------------------------------------------------------------
// Decimal parsing
// ---------------------------------------------------------------------------

/// Whether `c` is an ASCII decimal digit.
pub open spec fn is_dec_digit(c: char) -> bool {
    '0' <= c <= '9'
}

/// The value of an ASCII decimal digit.
pub open spec fn dec_digit_value(c: char) -> int {
    c as int - 48
}

/// Whether every character of `s` is an ASCII decimal digit.
pub open spec fn all_dec_digits(s: Seq<char>) -> bool {
    forall|i: int| 0 <= i < s.len() ==> is_dec_digit(#[trigger] s[i])
}

/// The value of a sequence of decimal digits.
pub open spec fn digits_value(s: Seq<char>) -> int
    decreases s.len(),
{
    if s.len() == 0 {
        0
    } else {
        digits_value(s.drop_last()) * 10 + dec_digit_value(s.last())
    }
}

/// What `str::parse::<i64>` accepts and returns: an optional sign, then
/// one or more ASCII decimal digits, whose value must fit in the type.
pub open spec fn spec_parse_i64(s: Seq<char>) -> Option<i64> {
    let ds = if s.len() > 0 && (s[0] == '+' || s[0] == '-') {
        s.drop_first()
    } else {
        s
    };
    let negative = s.len() > 0 && s[0] == '-';
    if ds.len() == 0 || !all_dec_digits(ds) {
        None
    } else {
        let v = if negative {
            -digits_value(ds)
        } else {
            digits_value(ds)
        };
        if i64::MIN <= v <= i64::MAX {
            Some(v as i64)
        } else {
            None
        }
    }
}

/// Digit values only grow a number: appending digits to a sequence that
/// is already past the 64-bit range keeps it past the range.
proof fn lemma_digits_value_nonneg(s: Seq<char>)
    requires
        all_dec_digits(s),
    ensures
        digits_value(s) >= 0,
    decreases s.len(),
{
    if s.len() > 0 {
        assert(all_dec_digits(s.drop_last())) by {
            assert(forall|i: int|
                0 <= i < s.len() - 1 ==> is_dec_digit(#[trigger] s.drop_last()[i]));
        }
        lemma_digits_value_nonneg(s.drop_last());
    }
}

/// Parses a decimal integer exactly as `str::parse::<i64>` does.
pub fn parse_i64(s: &str) -> (r: Option<i64>)
    ensures
        r == spec_parse_i64(s@),
{
    let n = s.unicode_len();
    if n == 0 {
        return None;
    }
    let first = s.get_char(0);
    let negative = first == '-';
    let has_sign = negative || first == '+';
    let start: usize = if has_sign {
        1
    } else {
        0
    };
    let ghost ds = if has_sign {
        s@.drop_first()
    } else {
        s@
    };
    if n == start {
        return None;
    }
    // Accumulate the magnitude as a non-positive number, so that the
    // type's most negative value is representable along the way.
    let mut acc: i64 = 0;
    let mut k: usize = start;
    while k < n
        invariant
            start <= k <= n,
            n == s@.len(),
            start == if has_sign { 1int } else { 0int },
            ds == if has_sign { s@.drop_first() } else { s@ },
            has_sign == (s@.len() > 0 && (s@[0] == '+' || s@[0] == '-')),
            negative == (s@.len() > 0 && s@[0] == '-'),
            ds.len() == n - start,
            forall|i: int| 0 <= i < k - start ==> is_dec_digit(#[trigger] ds[i]),
            acc <= 0,
            acc as int == -digits_value(ds.take(k - start)),
        decreases n - k,
    {
        let c = s.get_char(k);
        if c < '0' || c > '9' {
            proof {
                assert(ds[k - start] == s@[k as int]);
                assert(!is_dec_digit(ds[k - start]));
            }
            return None;
        }
        let d: i64 = (c as u8 - 48) as i64;
        proof {
            assert(ds[k - start] == s@[k as int]);
            assert(is_dec_digit(ds[k - start]));
            assert(d == dec_digit_value(s@[k as int]));
        }
        proof {
            assert(ds.take(k - start + 1).drop_last() =~= ds.take(k - start));
            assert(ds.take(k - start + 1).last() == ds[k - start]);
        }
        if acc < -922_337_203_685_477_580i64 {
            proof {
                lemma_digits_past_range(ds, k - start + 1);
            }
            return None;
        }
        let scaled: i64 = acc * 10;
        if scaled < i64::MIN + d {
            proof {
                lemma_digits_past_range(ds, k - start + 1);
            }
            return None;
        }
        acc = scaled - d;
        k += 1;
    }
    proof {
        assert(ds.take(n - start) =~= ds);
        assert(all_dec_digits(ds));
    }
    if negative {
        Some(acc)
    } else {
        if acc == i64::MIN {
            return None;
        }
        Some(-acc)
    }
}

/// Once a digit prefix's value exceeds the 64-bit range, the value of
/// every longer prefix exceeds it too.
proof fn lemma_digits_past_range(ds: Seq<char>, k: int)
    requires
        0 <= k <= ds.len(),
        forall|i: int| 0 <= i < k ==> is_dec_digit(#[trigger] ds[i]),
        digits_value(ds.take(k)) > -(i64::MIN as int),
    ensures
        !all_dec_digits(ds) || digits_value(ds) > -(i64::MIN as int),
    decreases ds.len() - k,
{
    if all_dec_digits(ds) {
        if k == ds.len() {
            assert(ds.take(k) =~= ds);
        } else {
            assert(ds.take(k + 1).drop_last() =~= ds.take(k));
            assert(ds.take(k + 1).last() == ds[k]);
            assert(digits_value(ds.take(k + 1)) == digits_value(ds.take(k)) * 10
                + dec_digit_value(ds[k]));
            lemma_digits_past_range(ds, k + 1);
        }
    }
}

} // verus!
