//! Log positions (LSNs): 64-bit write-ahead-log offsets with the
//! canonical textual form `"<hi>/<lo>"`, both halves in upper-case hex.

use vstd::prelude::*;

verus! {

/// The hex digit character for a value below 16.
pub open spec fn hex_digit(d: int) -> char {
    if d == 0 {
        '0'
    } else if d == 1 {
        '1'
    } else if d == 2 {
        '2'
    } else if d == 3 {
        '3'
    } else if d == 4 {
        '4'
    } else if d == 5 {
        '5'
    } else if d == 6 {
        '6'
    } else if d == 7 {
        '7'
    } else if d == 8 {
        '8'
    } else if d == 9 {
        '9'
    } else if d == 10 {
        'A'
    } else if d == 11 {
        'B'
    } else if d == 12 {
        'C'
    } else if d == 13 {
        'D'
    } else if d == 14 {
        'E'
    } else {
        'F'
    }
}

/// Upper-case hex text of a non-negative value, without leading zeros
/// (a lone `"0"` for zero).
pub open spec fn hex_text(v: int) -> Seq<char>
    decreases v,
{
    if v < 16 {
        seq![hex_digit(v)]
    } else {
        hex_text(v / 16) + seq![hex_digit(v % 16)]
    }
}

/// Canonical text of a log position: high half, `'/'`, low half.
pub open spec fn lsn_text(v: u64) -> Seq<char> {
    hex_text(v as int / 0x1_0000_0000) + seq!['/'] + hex_text(v as int % 0x1_0000_0000)
}

fn hex_digit_str(d: u64) -> (r: &'static str)
    requires
        d < 16,
    ensures
        r@ =~= seq![hex_digit(d as int)],
{
    proof {
        reveal_strlit("0");
        reveal_strlit("1");
        reveal_strlit("2");
        reveal_strlit("3");
        reveal_strlit("4");
        reveal_strlit("5");
        reveal_strlit("6");
        reveal_strlit("7");
        reveal_strlit("8");
        reveal_strlit("9");
        reveal_strlit("A");
        reveal_strlit("B");
        reveal_strlit("C");
        reveal_strlit("D");
        reveal_strlit("E");
        reveal_strlit("F");
    }
    match d {
        0 => "0",
        1 => "1",
        2 => "2",
        3 => "3",
        4 => "4",
        5 => "5",
        6 => "6",
        7 => "7",
        8 => "8",
        9 => "9",
        10 => "A",
        11 => "B",
        12 => "C",
        13 => "D",
        14 => "E",
        _ => "F",
    }
}

/// Upper-case hex rendering of one 32-bit half of a log position.
fn hex_string(v: u64) -> (r: String)
    ensures
        r@ =~= hex_text(v as int),
    decreases v,
{
    if v < 16 {
        hex_digit_str(v).to_owned()
    } else {
        let mut s = hex_string(v / 16);
        s.append(hex_digit_str(v % 16));
        s
    }
}

/// Whether `c` is a hex digit, in either case.
pub open spec fn is_hex_char(c: char) -> bool {
    ('0' <= c <= '9') || ('A' <= c <= 'F') || ('a' <= c <= 'f')
}

/// The value of a hex digit, in either case.
pub open spec fn hex_char_value(c: char) -> int {
    if '0' <= c <= '9' {
        c as int - 48
    } else if 'A' <= c <= 'F' {
        c as int - 55
    } else {
        c as int - 87
    }
}

/// Whether every character of `s` is a hex digit.
pub open spec fn all_hex_chars(s: Seq<char>) -> bool {
    forall|i: int| 0 <= i < s.len() ==> is_hex_char(#[trigger] s[i])
}

/// The value of a sequence of hex digits.
pub open spec fn hex_value(s: Seq<char>) -> int
    decreases s.len(),
{
    if s.len() == 0 {
        0
    } else {
        hex_value(s.drop_last()) * 16 + hex_char_value(s.last())
    }
}

/// The offset of the first `'/'` at or after `i`, if any.
pub open spec fn first_slash(s: Seq<char>, i: int) -> Option<int>
    decreases s.len() - i,
{
    if i < 0 || i >= s.len() {
        None
    } else if s[i] == '/' {
        Some(i)
    } else {
        first_slash(s, i + 1)
    }
}

/// What one half of a log position's text parses to: a non-empty run of
/// hex digits whose value fits in 32 bits.
pub open spec fn spec_parse_half(p: Seq<char>) -> Option<u64> {
    if p.len() == 0 || !all_hex_chars(p) || hex_value(p) >= 0x1_0000_0000 {
        None
    } else {
        Some(hex_value(p) as u64)
    }
}

/// What a log position's canonical text parses to: two parsable halves
/// joined by the first `'/'`.
pub open spec fn spec_parse_lsn(s: Seq<char>) -> Option<u64> {
    match first_slash(s, 0) {
        None => None,
        Some(p) => match (
            spec_parse_half(s.subrange(0, p)),
            spec_parse_half(s.subrange(p + 1, s.len() as int)),
        ) {
            (Some(hi), Some(lo)) => Some((hi * 0x1_0000_0000 + lo) as u64),
            _ => None,
        },
    }
}

/// A hex digit sequence's value is never negative.
proof fn lemma_hex_value_nonneg(p: Seq<char>)
    requires
        all_hex_chars(p),
    ensures
        hex_value(p) >= 0,
    decreases p.len(),
{
    if p.len() > 0 {
        assert(forall|i: int| 0 <= i < p.len() - 1 ==> is_hex_char(#[trigger] p.drop_last()[i]));
        lemma_hex_value_nonneg(p.drop_last());
    }
}

/// Once a hex prefix's value reaches 32 bits, every longer prefix's
/// value does too.
proof fn lemma_hex_past_range(p: Seq<char>, k: int)
    requires
        0 <= k <= p.len(),
        hex_value(p.take(k)) >= 0x1_0000_0000,
        forall|i: int| 0 <= i < k ==> is_hex_char(#[trigger] p[i]),
    ensures
        !all_hex_chars(p) || hex_value(p) >= 0x1_0000_0000,
    decreases p.len() - k,
{
    if all_hex_chars(p) {
        if k == p.len() {
            assert(p.take(k) =~= p);
        } else {
            assert(p.take(k + 1).drop_last() =~= p.take(k));
            assert(p.take(k + 1).last() == p[k]);
            assert(hex_char_value(p[k]) >= 0);
            lemma_hex_past_range(p, k + 1);
        }
    }
}

/// Parses the hex digits of `s` in `[from, to)` as one half of a log
/// position.
fn parse_hex_half(s: &str, from: usize, to: usize) -> (r: Option<u64>)
    requires
        from <= to <= s@.len(),
    ensures
        r == spec_parse_half(s@.subrange(from as int, to as int)),
{
    let ghost p = s@.subrange(from as int, to as int);
    if from == to {
        return None;
    }
    let mut acc: u64 = 0;
    let mut k: usize = from;
    while k < to
        invariant
            from <= k <= to <= s@.len(),
            p == s@.subrange(from as int, to as int),
            forall|i: int| 0 <= i < k - from ==> is_hex_char(#[trigger] p[i]),
            acc < 0x1_0000_0000,
            acc as int == hex_value(p.take(k - from)),
        decreases to - k,
    {
        let c = s.get_char(k);
        proof {
            assert(p[k - from] == s@[k as int]);
        }
        let d: u64 = if c >= '0' && c <= '9' {
            (c as u8 - 48) as u64
        } else if c >= 'A' && c <= 'F' {
            (c as u8 - 55) as u64
        } else if c >= 'a' && c <= 'f' {
            (c as u8 - 87) as u64
        } else {
            return None;
        };
        proof {
            assert(is_hex_char(p[k - from]) && d == hex_char_value(p[k - from]));
            assert(p.take(k - from + 1).drop_last() =~= p.take(k - from));
            assert(p.take(k - from + 1).last() == p[k - from]);
        }
        acc = acc * 16 + d;
        if acc >= 0x1_0000_0000 {
            proof {
                lemma_hex_past_range(p, k - from + 1);
            }
            return None;
        }
        k += 1;
    }
    proof {
        assert(p.take(to - from) =~= p);
        assert(all_hex_chars(p));
    }
    Some(acc)
}

/// Parses a log position from its canonical `"<hi>/<lo>"` text.
pub fn parse_lsn(s: &str) -> (r: Option<u64>)
    ensures
        r == spec_parse_lsn(s@),
{
    let n = s.unicode_len();
    let mut k: usize = 0;
    while k < n
        invariant
            k <= n,
            n == s@.len(),
            first_slash(s@, 0) == first_slash(s@, k as int),
        decreases n - k,
    {
        if s.get_char(k) == '/' {
            let hi = match parse_hex_half(s, 0, k) {
                Some(v) => v,
                None => {
                    return None;
                },
            };
            let lo = match parse_hex_half(s, k + 1, n) {
                Some(v) => v,
                None => {
                    return None;
                },
            };
            proof {
                lemma_hex_value_nonneg(s@.subrange(0, k as int));
                lemma_hex_value_nonneg(s@.subrange(k + 1, n as int));
                assert(hi < 0x1_0000_0000);
                assert(lo < 0x1_0000_0000);
            }
            return Some(hi * 0x1_0000_0000 + lo);
        }
        k += 1;
    }
    None
}

/// Renders a log position in its canonical `"<hi>/<lo>"` form.
pub fn format_lsn(v: u64) -> (r: String)
    ensures
        r@ =~= lsn_text(v),
{
    let mut s = hex_string(v >> 32);
    proof {
        assert(v >> 32 == v / 0x1_0000_0000) by (bit_vector);
        reveal_strlit("/");
    }
    s.append("/");
    let lo = v & 0xFFFF_FFFF;
    proof {
        assert(v & 0xFFFF_FFFF == v % 0x1_0000_0000) by (bit_vector);
    }
    s.append(hex_string(lo).as_str());
    s
}

} // verus!
