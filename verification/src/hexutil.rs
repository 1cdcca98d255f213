//! Conversions between byte strings and `0x`-prefixed lower-case hex strings,
//! with round-trip proofs.

use vstd::prelude::*;
use crate::strutil::push_char;

verus! {

/// The lower-case hex digit character for a nibble value.
pub open spec fn hex_digit(n: u8) -> char
    recommends
        n < 16,
{
    if n < 10 {
        ((48 + n) as u8) as char
    } else {
        ((87 + n) as u8) as char
    }
}

/// Lower-case hex rendering of a byte sequence, two digits a byte, no prefix.
pub open spec fn hex_seq(b: Seq<u8>) -> Seq<char> {
    Seq::new(
        b.len() * 2,
        |i: int|
            if i % 2 == 0 {
                hex_digit((b[i / 2] / 16) as u8)
            } else {
                hex_digit((b[i / 2] % 16) as u8)
            },
    )
}

/// `0x`-prefixed lower-case hex rendering of a byte sequence.
pub open spec fn hex_prefixed(b: Seq<u8>) -> Seq<char> {
    seq!['0', 'x'] + hex_seq(b)
}

/// Whether a character is a hex digit, either case.
pub open spec fn is_hex_char(c: char) -> bool {
    ('0' <= c && c <= '9') || ('a' <= c && c <= 'f') || ('A' <= c && c <= 'F')
}

/// Whether a character sequence is well-formed hex: even length, digits only.
pub open spec fn is_hex_seq(s: Seq<char>) -> bool {
    s.len() % 2 == 0 && (forall|i: int| 0 <= i < s.len() ==> is_hex_char(#[trigger] s[i]))
}

/// The value of one hex digit character.
pub open spec fn nibble_val(c: char) -> u8
    recommends
        is_hex_char(c),
{
    if '0' <= c && c <= '9' {
        ((c as u32) - 48) as u8
    } else if 'a' <= c && c <= 'f' {
        ((c as u32) - 87) as u8
    } else if 'A' <= c && c <= 'F' {
        ((c as u32) - 55) as u8
    } else {
        0
    }
}

/// The bytes denoted by a hex character sequence, two digits a byte.
pub open spec fn bytes_of_hex(s: Seq<char>) -> Seq<u8> {
    Seq::new(
        s.len() / 2,
        |i: int| (16 * nibble_val(s[2 * i]) + nibble_val(s[2 * i + 1])) as u8,
    )
}

/// A hex sequence with a case-insensitive `0x` prefix removed, if present.
pub open spec fn strip_hex_prefix(s: Seq<char>) -> Seq<char> {
    if s.len() >= 2 && s[0] == '0' && (s[1] == 'x' || s[1] == 'X') {
        s.skip(2)
    } else {
        s
    }
}

/// Renders bytes as lower-case hex without a prefix.
pub fn bytes_to_hex(b: &Vec<u8>) -> (r: String)
    ensures
        r@ == hex_seq(b@),
{
    let mut r = String::new();
    let mut i: usize = 0;
    while i < b.len()
        invariant
            i <= b@.len(),
            r@ == hex_seq(b@.subrange(0, i as int)),
        decreases b@.len() - i,
    {
        let hi: u8 = b[i] / 16;
        let lo: u8 = b[i] % 16;
        let hc: char = if hi < 10 {
            (48 + hi) as char
        } else {
            (87 + hi) as char
        };
        let lc: char = if lo < 10 {
            (48 + lo) as char
        } else {
            (87 + lo) as char
        };
        push_char(&mut r, hc);
        push_char(&mut r, lc);
        assert(r@ =~= hex_seq(b@.subrange(0, i + 1 as int)));
        i = i + 1;
    }
    assert(b@.subrange(0, b@.len() as int) =~= b@);
    r
}

/// Renders bytes as a `0x`-prefixed lower-case hex string.
pub fn bytes_to_hex_prefixed(b: &Vec<u8>) -> (r: String)
    ensures
        r@ == hex_prefixed(b@),
{
    proof {
        reveal_strlit("0x");
    }
    let mut r = String::from_str("0x");
    let tail = bytes_to_hex(b);
    r.append(tail.as_str());
    assert(r@ =~= hex_prefixed(b@));
    r
}

/// Decodes a hex string (no prefix) to bytes; `None` exactly on ill-formed hex.
pub fn hex_to_bytes(s: &str) -> (r: Option<Vec<u8>>)
    ensures
        r is Some <==> is_hex_seq(s@),
        r is Some ==> r.unwrap()@ == bytes_of_hex(s@),
{
    let n: usize = s.unicode_len();
    if n % 2 != 0 {
        return None;
    }
    let mut out: Vec<u8> = Vec::new();
    let mut i: usize = 0;
    while i < n
        invariant
            i <= n,
            i % 2 == 0,
            n % 2 == 0,
            n == s@.len(),
            out@.len() == i / 2,
            forall|j: int| 0 <= j < i ==> is_hex_char(#[trigger] s@[j]),
            out@ =~= bytes_of_hex(s@.subrange(0, i as int)),
        decreases n - i,
    {
        let c0 = s.get_char(i);
        let c1 = s.get_char(i + 1);
        let v0 = match nibble_of_char(c0) {
            Some(v) => v,
            None => {
                return None;
            },
        };
        let v1 = match nibble_of_char(c1) {
            Some(v) => v,
            None => {
                return None;
            },
        };
        out.push(16 * v0 + v1);
        assert(out@ =~= bytes_of_hex(s@.subrange(0, i + 2 as int)));
        i = i + 2;
    }
    assert(s@.subrange(0, n as int) =~= s@);
    Some(out)
}

/// Decodes a hex string after removing a case-insensitive `0x` prefix, if any.
pub fn hex_string_to_bytes(s: &str) -> (r: Option<Vec<u8>>)
    ensures
        r is Some <==> is_hex_seq(strip_hex_prefix(s@)),
        r is Some ==> r.unwrap()@ == bytes_of_hex(strip_hex_prefix(s@)),
{
    let n: usize = s.unicode_len();
    if n >= 2 {
        let c0 = s.get_char(0);
        let c1 = s.get_char(1);
        if c0 == '0' && (c1 == 'x' || c1 == 'X') {
            let tail = s.substring_char(2, n);
            assert(tail@ =~= strip_hex_prefix(s@));
            return hex_to_bytes(tail);
        }
    }
    assert(strip_hex_prefix(s@) =~= s@);
    hex_to_bytes(s)
}

/// The value of one hex digit character; `None` exactly on non-hex characters.
pub fn nibble_of_char(c: char) -> (r: Option<u8>)
    ensures
        r is Some <==> is_hex_char(c),
        r is Some ==> r.unwrap() == nibble_val(c) && r.unwrap() < 16,
{
    let u: u32 = c as u32;
    if 48 <= u && u <= 57 {
        Some((u - 48) as u8)
    } else if 97 <= u && u <= 102 {
        Some((u - 87) as u8)
    } else if 65 <= u && u <= 70 {
        Some((u - 55) as u8)
    } else {
        assert(!is_hex_char(c));
        None
    }
}

/// Whether every character of a hex sequence is lower case (no `A`..`F`).
pub open spec fn is_lower_hex_seq(s: Seq<char>) -> bool {
    is_hex_seq(s) && (forall|i: int| 0 <= i < s.len() ==> !('A' <= #[trigger] s[i] && s[i] <= 'F'))
}

/// Decoding inverts encoding: the hex rendering of any byte sequence is
/// well-formed lower-case hex and decodes back to the same bytes.
pub proof fn lemma_hex_round_trip(b: Seq<u8>)
    ensures
        is_lower_hex_seq(hex_seq(b)),
        bytes_of_hex(hex_seq(b)) =~= b,
{
    assert forall|i: int| 0 <= i < hex_seq(b).len() implies is_hex_char(#[trigger] hex_seq(b)[i])
        && !('A' <= hex_seq(b)[i] && hex_seq(b)[i] <= 'F') by {
        let v: u8 = if i % 2 == 0 {
            (b[i / 2] / 16) as u8
        } else {
            (b[i / 2] % 16) as u8
        };
        assert(v < 16);
    }
    assert forall|i: int| 0 <= i < b.len() implies bytes_of_hex(hex_seq(b))[i] == b[i] by {
        let hi: u8 = (b[i] / 16) as u8;
        let lo: u8 = (b[i] % 16) as u8;
        assert(hex_seq(b)[2 * i] == hex_digit(hi));
        assert(hex_seq(b)[2 * i + 1] == hex_digit(lo));
        assert(nibble_val(hex_digit(hi)) == hi);
        assert(nibble_val(hex_digit(lo)) == lo);
        assert(16 * (b[i] / 16) + b[i] % 16 == b[i]);
    }
}

/// Encoding inverts decoding on lower-case hex: rendering the decoded bytes
/// gives back the very same characters.
pub proof fn lemma_hex_round_trip_str(s: Seq<char>)
    requires
        is_lower_hex_seq(s),
    ensures
        hex_seq(bytes_of_hex(s)) =~= s,
{
    assert forall|i: int| 0 <= i < s.len() implies hex_seq(bytes_of_hex(s))[i] == s[i] by {
        let j: int = i / 2;
        let hi: u8 = nibble_val(s[2 * j]);
        let lo: u8 = nibble_val(s[2 * j + 1]);
        assert(is_hex_char(s[2 * j]));
        assert(is_hex_char(s[2 * j + 1]));
        assert(hi < 16 && lo < 16);
        let byte: u8 = (16 * hi + lo) as u8;
        assert(bytes_of_hex(s)[j] == byte);
        assert(byte / 16 == hi && byte % 16 == lo) by (nonlinear_arith)
            requires
                hi < 16 && lo < 16 && byte == 16 * hi + lo,
        ;
        if i % 2 == 0 {
            assert(i == 2 * j);
            assert(hex_digit(hi) == s[i]);
        } else {
            assert(i == 2 * j + 1);
            assert(hex_digit(lo) == s[i]);
        }
    }
}

} // verus!
