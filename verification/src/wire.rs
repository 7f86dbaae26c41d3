//! JSON building blocks for the wire payloads.
//!
//! The daemon's messages are JSON objects carried inside the framing of the
//! `protocol` module. This module defines the canonical byte-level encoding
//! the crate emits (compact, fields in a fixed order, minimal escapes) and
//! the primitive parsers the decoder is built from. Parsers work directly
//! on UTF-8 bytes: every structural character of JSON is ASCII, and bytes
//! of multi-byte characters never collide with them, so string content can
//! be copied verbatim.
//!
//! Each exec parser mirrors a spec function exactly, so the decoders in
//! `codec` can be proven to invert the canonical encoding.

use vstd::prelude::*;
use vstd::utf8::{encode_scalar, encode_utf8, decode_utf8, valid_utf8};

verus! {

pub const QUOTE: u8 = 0x22; // '"'
pub const BACKSLASH: u8 = 0x5c; // '\'
pub const LBRACE: u8 = 0x7b; // '{'
pub const RBRACE: u8 = 0x7d; // '}'
pub const LBRACKET: u8 = 0x5b; // '['
pub const RBRACKET: u8 = 0x5d; // ']'
pub const COLON: u8 = 0x3a; // ':'
pub const COMMA: u8 = 0x2c; // ','
pub const DOT: u8 = 0x2e; // '.'
pub const MINUS: u8 = 0x2d; // '-'

// ---------------------------------------------------------------------------
// Canonical string escaping
// ---------------------------------------------------------------------------

/// Lower-case hex digit for a value below 16.
pub open spec fn spec_hex_digit(n: u8) -> u8 {
    if n < 10 {
        (0x30 + n) as u8
    } else {
        (0x57 + n) as u8
    }
}

/// Canonical escape of one byte of string content: quote and backslash get
/// a two-byte escape, control bytes a `\u00XX` escape, everything else
/// passes through.
pub open spec fn spec_escape_byte(b: u8) -> Seq<u8> {
    if b == QUOTE {
        seq![BACKSLASH, QUOTE]
    } else if b == BACKSLASH {
        seq![BACKSLASH, BACKSLASH]
    } else if b < 0x20 {
        seq![BACKSLASH, 0x75, 0x30, 0x30, spec_hex_digit(b / 16), spec_hex_digit(b % 16)]
    } else {
        seq![b]
    }
}

/// Canonical escape of a whole byte string.
pub open spec fn spec_escape_bytes(s: Seq<u8>) -> Seq<u8>
    decreases s.len(),
{
    if s.len() == 0 {
        seq![]
    } else {
        spec_escape_byte(s[0]) + spec_escape_bytes(s.drop_first())
    }
}

pub proof fn lemma_escape_bytes_snoc(s: Seq<u8>, b: u8)
    ensures
        spec_escape_bytes(s.push(b)) == spec_escape_bytes(s) + spec_escape_byte(b),
    decreases s.len(),
{
    if s.len() == 0 {
        assert(s.push(b).drop_first() =~= Seq::<u8>::empty());
        assert(spec_escape_bytes(s.push(b)) == spec_escape_byte(s.push(b)[0])
            + spec_escape_bytes(Seq::<u8>::empty()));
        assert(s.push(b)[0] == b);
        assert(spec_escape_byte(b) + seq![] =~= spec_escape_byte(b));
        assert(spec_escape_bytes(s) + spec_escape_byte(b) =~= spec_escape_byte(b));
    } else {
        assert(s.push(b).drop_first() =~= s.drop_first().push(b));
        lemma_escape_bytes_snoc(s.drop_first(), b);
        assert(spec_escape_bytes(s.push(b)) =~= spec_escape_bytes(s) + spec_escape_byte(b));
    }
}

/// A quoted JSON string carrying the given content bytes.
pub open spec fn spec_json_string(content: Seq<u8>) -> Seq<u8> {
    seq![QUOTE] + spec_escape_bytes(content) + seq![QUOTE]
}

/// Append the canonical escape of `content` to `out` (content only, no
/// surrounding quotes).
pub fn emit_escaped(out: &mut Vec<u8>, content: &[u8])
    ensures
        final(out)@ == old(out)@ + spec_escape_bytes(content@),
{
    let ghost orig = out@;
    let mut i: usize = 0;
    while i < content.len()
        invariant
            i <= content@.len(),
            out@ == orig + spec_escape_bytes(content@.take(i as int)),
        decreases content@.len() - i,
    {
        let b = content[i];
        proof {
            lemma_escape_bytes_snoc(content@.take(i as int), b);
            assert(content@.take(i + 1) =~= content@.take(i as int).push(b));
        }
        if b == QUOTE {
            out.push(BACKSLASH);
            out.push(QUOTE);
        } else if b == BACKSLASH {
            out.push(BACKSLASH);
            out.push(BACKSLASH);
        } else if b < 0x20 {
            out.push(BACKSLASH);
            out.push(0x75);
            out.push(0x30);
            out.push(0x30);
            out.push(hex_digit(b / 16));
            out.push(hex_digit(b % 16));
        } else {
            out.push(b);
        }
        i = i + 1;
    }
    proof {
        assert(content@.take(i as int) =~= content@);
    }
}

fn hex_digit(n: u8) -> (r: u8)
    requires
        n < 16,
    ensures
        r == spec_hex_digit(n),
{
    if n < 10 {
        0x30 + n
    } else {
        0x57 + n
    }
}

/// Append a quoted, escaped JSON string with the given content bytes.
pub fn emit_json_string(out: &mut Vec<u8>, content: &[u8])
    ensures
        final(out)@ == old(out)@ + spec_json_string(content@),
{
    out.push(QUOTE);
    emit_escaped(out, content);
    out.push(QUOTE);
    proof {
        assert(out@ =~= old(out)@ + spec_json_string(content@));
    }
}

// ---------------------------------------------------------------------------
// Canonical number printing
// ---------------------------------------------------------------------------

/// Decimal digits of `n`, most significant first.
pub open spec fn spec_dec_digits(n: nat) -> Seq<u8>
    decreases n,
{
    if n < 10 {
        seq![(0x30 + n) as u8]
    } else {
        spec_dec_digits(n / 10) + seq![(0x30 + n % 10) as u8]
    }
}

/// Append the decimal digits of `n`.
pub fn emit_u64(out: &mut Vec<u8>, n: u64)
    ensures
        final(out)@ == old(out)@ + spec_dec_digits(n as nat),
    decreases n,
{
    if n < 10 {
        out.push(0x30 + (n as u8));
    } else {
        emit_u64(out, n / 10);
        out.push(0x30 + ((n % 10) as u8));
        assert(out@ =~= old(out)@ + spec_dec_digits(n as nat));
    }
}

/// Canonical printing of a fixed-point value in thousandths: the integer
/// part, a dot, and exactly three fractional digits.
pub open spec fn spec_milli_digits(m: nat) -> Seq<u8> {
    spec_dec_digits(m / 1000) + seq![
        DOT,
        (0x30 + (m % 1000) / 100) as u8,
        (0x30 + (m % 100) / 10) as u8,
        (0x30 + m % 10) as u8,
    ]
}

/// Append the canonical fixed-point printing of `m` thousandths.
pub fn emit_milli(out: &mut Vec<u8>, m: u32)
    ensures
        final(out)@ == old(out)@ + spec_milli_digits(m as nat),
{
    emit_u64(out, (m / 1000) as u64);
    out.push(DOT);
    out.push(0x30 + (((m % 1000) / 100) as u8));
    out.push(0x30 + (((m % 100) / 10) as u8));
    out.push(0x30 + ((m % 10) as u8));
    assert(out@ =~= old(out)@ + spec_milli_digits(m as nat));
}

/// The bytes of `true` or `false`.
pub open spec fn spec_bool_bytes(b: bool) -> Seq<u8> {
    if b {
        seq![0x74u8, 0x72, 0x75, 0x65]
    } else {
        seq![0x66u8, 0x61, 0x6c, 0x73, 0x65]
    }
}

/// Append `true` or `false`.
pub fn emit_bool(out: &mut Vec<u8>, b: bool)
    ensures
        final(out)@ == old(out)@ + spec_bool_bytes(b),
{
    if b {
        out.push(0x74);
        out.push(0x72);
        out.push(0x75);
        out.push(0x65);
    } else {
        out.push(0x66);
        out.push(0x61);
        out.push(0x6c);
        out.push(0x73);
        out.push(0x65);
    }
    assert(out@ =~= old(out)@ + spec_bool_bytes(b));
}

// ---------------------------------------------------------------------------
// Small helpers shared by the parsers
// ---------------------------------------------------------------------------

/// JSON whitespace.
pub open spec fn is_ws(b: u8) -> bool {
    b == 0x20 || b == 0x09 || b == 0x0a || b == 0x0d
}

/// First position at or after `i` holding a byte that is not JSON
/// whitespace (or the end of the input).
pub open spec fn sp_ws(s: Seq<u8>, i: int) -> int
    decreases s.len() - i,
    when 0 <= i <= s.len()
{
    if i < s.len() && is_ws(s[i]) {
        sp_ws(s, i + 1)
    } else {
        i
    }
}

/// Advance past JSON whitespace.
pub fn skip_ws(s: &[u8], start: usize) -> (r: usize)
    requires
        start <= s@.len(),
    ensures
        r == sp_ws(s@, start as int),
        start <= r <= s@.len(),
{
    let mut j = start;
    while j < s.len() && is_ws_byte(s[j])
        invariant
            start <= j <= s@.len(),
            sp_ws(s@, start as int) == sp_ws(s@, j as int),
        decreases s@.len() - j,
    {
        j = j + 1;
    }
    j
}

fn is_ws_byte(b: u8) -> (r: bool)
    ensures
        r == is_ws(b),
{
    b == 0x20 || b == 0x09 || b == 0x0a || b == 0x0d
}

/// An ASCII decimal digit.
pub open spec fn is_digit(b: u8) -> bool {
    0x30 <= b <= 0x39
}

// ---------------------------------------------------------------------------
// String content parsing
// ---------------------------------------------------------------------------

pub open spec fn is_hex(b: u8) -> bool {
    is_digit(b) || (0x41 <= b <= 0x46) || (0x61 <= b <= 0x66)
}

pub open spec fn spec_hex_val(b: u8) -> nat {
    if is_digit(b) {
        (b - 0x30) as nat
    } else if 0x41 <= b <= 0x46 {
        (b - 0x37) as nat
    } else {
        (b - 0x57) as nat
    }
}

/// UTF-16 surrogate code units, which are not scalar values.
pub open spec fn is_surrogate(code: nat) -> bool {
    0xd800 <= code < 0xe000
}

/// Parse the content of a JSON string, starting just after the opening
/// quote, with `acc` the content bytes gathered so far. Returns the full
/// content and the position just past the closing quote. Escapes follow
/// JSON: the named single-character escapes and `\uXXXX` for scalar values
/// of the basic plane (surrogates are rejected); all other bytes are taken
/// verbatim.
pub open spec fn sp_string_content(s: Seq<u8>, i: int, acc: Seq<u8>) -> Option<(Seq<u8>, int)>
    decreases s.len() - i,
    when 0 <= i <= s.len()
{
    if i >= s.len() {
        None
    } else if s[i] == QUOTE {
        Some((acc, i + 1))
    } else if s[i] == BACKSLASH {
        if s.len() - i < 2 {
            None
        } else {
            let e = s[i + 1];
            if e == QUOTE {
                sp_string_content(s, i + 2, acc.push(QUOTE))
            } else if e == BACKSLASH {
                sp_string_content(s, i + 2, acc.push(BACKSLASH))
            } else if e == 0x2f {
                sp_string_content(s, i + 2, acc.push(0x2f))
            } else if e == 0x62 {
                sp_string_content(s, i + 2, acc.push(0x08))
            } else if e == 0x66 {
                sp_string_content(s, i + 2, acc.push(0x0c))
            } else if e == 0x6e {
                sp_string_content(s, i + 2, acc.push(0x0a))
            } else if e == 0x72 {
                sp_string_content(s, i + 2, acc.push(0x0d))
            } else if e == 0x74 {
                sp_string_content(s, i + 2, acc.push(0x09))
            } else if e == 0x75 {
                if s.len() - i < 6 {
                    None
                } else if !(is_hex(s[i + 2]) && is_hex(s[i + 3]) && is_hex(s[i + 4]) && is_hex(
                    s[i + 5],
                )) {
                    None
                } else {
                    let code = spec_hex_val(s[i + 2]) * 4096 + spec_hex_val(s[i + 3]) * 256
                        + spec_hex_val(s[i + 4]) * 16 + spec_hex_val(s[i + 5]);
                    if is_surrogate(code) {
                        None
                    } else {
                        sp_string_content(s, i + 6, acc + encode_scalar(code as u32))
                    }
                }
            } else {
                None
            }
        }
    } else {
        sp_string_content(s, i + 1, acc.push(s[i]))
    }
}

fn hex_val(b: u8) -> (r: Option<u8>)
    ensures
        match r {
            Some(v) => is_hex(b) && v == spec_hex_val(b) && v < 16,
            None => !is_hex(b),
        },
{
    if 0x30 <= b && b <= 0x39 {
        Some(b - 0x30)
    } else if 0x41 <= b && b <= 0x46 {
        Some(b - 0x37)
    } else if 0x61 <= b && b <= 0x66 {
        Some(b - 0x57)
    } else {
        None
    }
}

/// Append the UTF-8 encoding of a basic-plane scalar value.
fn push_scalar(out: &mut Vec<u8>, code: u32)
    requires
        code < 0x10000,
        !is_surrogate(code as nat),
    ensures
        final(out)@ == old(out)@ + encode_scalar(code),
{
    if code <= 0x7f {
        out.push((code & 0x7F) as u8);
    } else if code <= 0x7ff {
        out.push(0xC0 | ((code >> 6) & 0x1F) as u8);
        out.push(0x80 | (code & 0x3F) as u8);
    } else {
        out.push(0xE0 | ((code >> 12) & 0x0F) as u8);
        out.push(0x80 | ((code >> 6) & 0x3F) as u8);
        out.push(0x80 | (code & 0x3F) as u8);
    }
    assert(out@ =~= old(out)@ + encode_scalar(code));
}

/// Parse a whole JSON string value: the opening quote, the content, the
/// closing quote.
pub open spec fn sp_string_value(s: Seq<u8>, i: int) -> Option<(Seq<u8>, int)> {
    if 0 <= i < s.len() && s[i] == QUOTE {
        sp_string_content(s, i + 1, Seq::<u8>::empty())
    } else {
        None
    }
}

/// Parse the content of a JSON string, starting just after the opening
/// quote. Returns the unescaped content bytes and the position just past
/// the closing quote.
pub fn parse_string_content(s: &[u8], start: usize) -> (r: Option<(Vec<u8>, usize)>)
    requires
        start <= s@.len(),
    ensures
        (match r {
            Some((v, end)) => Some((v@, end as int)),
            None => None,
        }) == sp_string_content(s@, start as int, Seq::<u8>::empty()),
        r matches Some((v, end)) ==> start < end <= s@.len(),
{
    let mut acc: Vec<u8> = Vec::new();
    let mut j = start;
    loop
        invariant
            start <= j <= s@.len(),
            sp_string_content(s@, start as int, Seq::<u8>::empty()) == sp_string_content(
                s@,
                j as int,
                acc@,
            ),
        decreases s@.len() - j,
    {
        if j == s.len() {
            return None;
        }
        let b = s[j];
        if b == QUOTE {
            return Some((acc, j + 1));
        }
        if b == BACKSLASH {
            if s.len() - j < 2 {
                return None;
            }
            let e = s[j + 1];
            if e == QUOTE {
                acc.push(QUOTE);
                j = j + 2;
            } else if e == BACKSLASH {
                acc.push(BACKSLASH);
                j = j + 2;
            } else if e == 0x2f {
                acc.push(0x2f);
                j = j + 2;
            } else if e == 0x62 {
                acc.push(0x08);
                j = j + 2;
            } else if e == 0x66 {
                acc.push(0x0c);
                j = j + 2;
            } else if e == 0x6e {
                acc.push(0x0a);
                j = j + 2;
            } else if e == 0x72 {
                acc.push(0x0d);
                j = j + 2;
            } else if e == 0x74 {
                acc.push(0x09);
                j = j + 2;
            } else if e == 0x75 {
                if s.len() - j < 6 {
                    return None;
                }
                let h0 = hex_val(s[j + 2]);
                let h1 = hex_val(s[j + 3]);
                let h2 = hex_val(s[j + 4]);
                let h3 = hex_val(s[j + 5]);
                match (h0, h1, h2, h3) {
                    (Some(a0), Some(a1), Some(a2), Some(a3)) => {
                        let code: u32 = (a0 as u32) * 4096 + (a1 as u32) * 256 + (a2 as u32) * 16
                            + (a3 as u32);
                        if 0xd800 <= code && code < 0xe000 {
                            return None;
                        }
                        push_scalar(&mut acc, code);
                        j = j + 6;
                    },
                    _ => {
                        return None;
                    },
                }
            } else {
                return None;
            }
        } else {
            acc.push(b);
            j = j + 1;
        }
    }
}

// ---------------------------------------------------------------------------
// Number parsing
// ---------------------------------------------------------------------------

/// Accumulate decimal digits starting at `i` onto `acc`, stopping at the
/// first non-digit. Fails if the value would exceed `u64::MAX`.
pub open spec fn sp_digits(s: Seq<u8>, i: int, acc: nat) -> Option<(nat, int)>
    decreases s.len() - i,
    when 0 <= i <= s.len()
{
    if i < s.len() && is_digit(s[i]) {
        if acc * 10 + s[i] - 0x30 > u64::MAX {
            None
        } else {
            sp_digits(s, i + 1, (acc * 10 + s[i] - 0x30) as nat)
        }
    } else {
        Some((acc, i))
    }
}

/// Parse an unsigned decimal integer: one or more digits.
pub open spec fn sp_u64_value(s: Seq<u8>, i: int) -> Option<(nat, int)> {
    if 0 <= i < s.len() && is_digit(s[i]) {
        sp_digits(s, i, 0)
    } else {
        None
    }
}

pub fn parse_u64_value(s: &[u8], start: usize) -> (r: Option<(u64, usize)>)
    requires
        start <= s@.len(),
    ensures
        (match r {
            Some((v, end)) => Some((v as nat, end as int)),
            None => None,
        }) == sp_u64_value(s@, start as int),
        r matches Some((v, end)) ==> start < end <= s@.len(),
{
    if start == s.len() || !(0x30 <= s[start] && s[start] <= 0x39) {
        return None;
    }
    let mut acc: u64 = 0;
    let mut j = start;
    loop
        invariant
            start <= j <= s@.len(),
            sp_u64_value(s@, start as int) == sp_digits(s@, j as int, acc as nat),
        decreases s@.len() - j,
    {
        if j == s.len() || !(0x30 <= s[j] && s[j] <= 0x39) {
            return Some((acc, j));
        }
        let d = s[j] - 0x30;
        if acc > (u64::MAX - (d as u64)) / 10 {
            assert(acc * 10 + (s@[j as int] - 0x30) > u64::MAX);
            return None;
        }
        assert(acc * 10 + (s@[j as int] - 0x30) <= u64::MAX);
        acc = acc * 10 + (d as u64);
        j = j + 1;
    }
}

/// Accumulate up to three fractional digits (scales 100, 10, 1); further
/// digits are read and discarded.
pub open spec fn sp_frac(s: Seq<u8>, i: int, mult: nat, acc: nat) -> (nat, int)
    decreases s.len() - i,
    when 0 <= i <= s.len()
{
    if i < s.len() && is_digit(s[i]) {
        sp_frac(s, i + 1, mult / 10, (acc + (s[i] - 0x30) * mult) as nat)
    } else {
        (acc, i)
    }
}

/// Parse a non-negative JSON number into thousandths, truncating after the
/// third fractional digit. Exponent notation and values over
/// `u32::MAX` thousandths are rejected.
pub open spec fn sp_milli_value(s: Seq<u8>, i: int) -> Option<(nat, int)> {
    if !(0 <= i < s.len() && is_digit(s[i])) {
        None
    } else {
        match sp_digits(s, i, 0) {
            None => None,
            Some((ip, j)) => {
                if j < s.len() && s[j] == DOT {
                    if !(j + 1 < s.len() && is_digit(s[j + 1])) {
                        None
                    } else {
                        let (fr, k) = sp_frac(s, j + 1, 100, 0);
                        if k < s.len() && (s[k] == 0x65 || s[k] == 0x45) {
                            None
                        } else if ip * 1000 + fr > u32::MAX {
                            None
                        } else {
                            Some(((ip * 1000 + fr) as nat, k))
                        }
                    }
                } else if j < s.len() && (s[j] == 0x65 || s[j] == 0x45) {
                    None
                } else if ip * 1000 > u32::MAX {
                    None
                } else {
                    Some((ip * 1000, j))
                }
            },
        }
    }
}

pub fn parse_milli_value(s: &[u8], start: usize) -> (r: Option<(u32, usize)>)
    requires
        start <= s@.len(),
    ensures
        (match r {
            Some((v, end)) => Some((v as nat, end as int)),
            None => None,
        }) == sp_milli_value(s@, start as int),
        r matches Some((v, end)) ==> start < end <= s@.len(),
{
    if start == s.len() || !(0x30 <= s[start] && s[start] <= 0x39) {
        return None;
    }
    let ip_parse = parse_u64_value(s, start);
    let (ip, mut j) = match ip_parse {
        None => {
            return None;
        },
        Some(p) => p,
    };
    let ghost j0 = j as int;
    let ghost with_dot = j < s@.len() && s@[j as int] == DOT;
    let mut frac: u32 = 0;
    if j < s.len() && s[j] == DOT {
        if !(s.len() - j >= 2 && 0x30 <= s[j + 1] && s[j + 1] <= 0x39) {
            return None;
        }
        let mut mult: u32 = 100;
        let mut k = j + 1;
        loop
            invariant
                j + 1 <= k <= s@.len(),
                mult == 100 || mult == 10 || mult == 1 || mult == 0,
                mult == 100 ==> frac == 0,
                mult == 10 ==> frac <= 900,
                mult == 1 ==> frac <= 990,
                frac <= 999,
                sp_frac(s@, j + 1, 100, 0) == sp_frac(s@, k as int, mult as nat, frac as nat),
            ensures
                j + 1 <= k <= s@.len(),
                frac <= 999,
                sp_frac(s@, j + 1, 100, 0) == sp_frac(s@, k as int, mult as nat, frac as nat),
                k == s@.len() || !is_digit(s@[k as int]),
            decreases s@.len() - k,
        {
            if k == s.len() || !(0x30 <= s[k] && s[k] <= 0x39) {
                break;
            }
            let d = (s[k] - 0x30) as u32;
            frac = frac + d * mult;
            mult = mult / 10;
            k = k + 1;
        }
        proof {
            assert(sp_frac(s@, k as int, mult as nat, frac as nat) == (frac as nat, k as int));
            assert(sp_frac(s@, j0 + 1, 100, 0) == (frac as nat, k as int));
        }
        j = k;
    }
    proof {
        assert(sp_digits(s@, start as int, 0) == Some((ip as nat, j0)));
        if with_dot {
            assert(sp_frac(s@, j0 + 1, 100, 0) == (frac as nat, j as int));
        } else {
            assert(frac == 0 && j as int == j0);
        }
    }
    if j < s.len() && (s[j] == 0x65 || s[j] == 0x45) {
        return None;
    }
    if ip > 4294967 {
        return None;
    }
    let scaled: u32 = (ip as u32) * 1000;
    if frac > u32::MAX - scaled {
        return None;
    }
    let v: u32 = scaled + frac;
    Some((v, j))
}

// ---------------------------------------------------------------------------
// Literal values
// ---------------------------------------------------------------------------

/// Parse `true` or `false`.
pub open spec fn sp_bool_value(s: Seq<u8>, i: int) -> Option<(bool, int)> {
    if i + 4 <= s.len() && s.subrange(i, i + 4) == spec_bool_bytes(true) {
        Some((true, i + 4))
    } else if i + 5 <= s.len() && s.subrange(i, i + 5) == spec_bool_bytes(false) {
        Some((false, i + 5))
    } else {
        None
    }
}

pub fn parse_bool_value(s: &[u8], start: usize) -> (r: Option<(bool, usize)>)
    requires
        start <= s@.len(),
    ensures
        (match r {
            Some((v, end)) => Some((v, end as int)),
            None => None,
        }) == sp_bool_value(s@, start as int),
        r matches Some((v, end)) ==> start < end <= s@.len(),
{
    if s.len() - start >= 4 && s[start] == 0x74 && s[start + 1] == 0x72 && s[start + 2] == 0x75
        && s[start + 3] == 0x65 {
        proof {
            assert(s@.subrange(start as int, start + 4) =~= spec_bool_bytes(true));
        }
        Some((true, start + 4))
    } else if s.len() - start >= 5 && s[start] == 0x66 && s[start + 1] == 0x61 && s[start + 2]
        == 0x6c && s[start + 3] == 0x73 && s[start + 4] == 0x65 {
        proof {
            assert(s@.subrange(start as int, start + 5) =~= spec_bool_bytes(false));
            assert(!(s@.subrange(start as int, start + 4) =~= spec_bool_bytes(true)));
        }
        Some((false, start + 5))
    } else {
        proof {
            if start + 4 <= s@.len() {
                assert(s@.subrange(start as int, start + 4) != spec_bool_bytes(true)) by {
                    if s@.subrange(start as int, start + 4) == spec_bool_bytes(true) {
                        assert(s@[start as int] == 0x74);
                        assert(s@[start as int + 1] == 0x72);
                        assert(s@[start as int + 2] == 0x75);
                        assert(s@[start as int + 3] == 0x65);
                    }
                }
            }
            if start + 5 <= s@.len() {
                assert(s@.subrange(start as int, start + 5) != spec_bool_bytes(false)) by {
                    if s@.subrange(start as int, start + 5) == spec_bool_bytes(false) {
                        assert(s@[start as int] == 0x66);
                        assert(s@[start as int + 1] == 0x61);
                        assert(s@[start as int + 2] == 0x6c);
                        assert(s@[start as int + 3] == 0x73);
                        assert(s@[start as int + 4] == 0x65);
                    }
                }
            }
        }
        None
    }
}

/// The bytes of `null`.
pub open spec fn spec_null_bytes() -> Seq<u8> {
    seq![0x6eu8, 0x75, 0x6c, 0x6c]
}

/// Parse `null`.
pub open spec fn sp_null_value(s: Seq<u8>, i: int) -> Option<int> {
    if i + 4 <= s.len() && s.subrange(i, i + 4) == spec_null_bytes() {
        Some(i + 4)
    } else {
        None
    }
}

pub fn parse_null_value(s: &[u8], start: usize) -> (r: Option<usize>)
    requires
        start <= s@.len(),
    ensures
        (match r {
            Some(end) => Some(end as int),
            None => None,
        }) == sp_null_value(s@, start as int),
        r matches Some(end) ==> start < end <= s@.len(),
{
    if s.len() - start >= 4 && s[start] == 0x6e && s[start + 1] == 0x75 && s[start + 2] == 0x6c
        && s[start + 3] == 0x6c {
        proof {
            assert(s@.subrange(start as int, start + 4) =~= spec_null_bytes());
        }
        Some(start + 4)
    } else {
        proof {
            if start + 4 <= s@.len() {
                assert(s@.subrange(start as int, start + 4) != spec_null_bytes()) by {
                    if s@.subrange(start as int, start + 4) == spec_null_bytes() {
                        assert(s@[start as int] == 0x6e);
                        assert(s@[start as int + 1] == 0x75);
                        assert(s@[start as int + 2] == 0x6c);
                        assert(s@[start as int + 3] == 0x6c);
                    }
                }
            }
        }
        None
    }
}

// ---------------------------------------------------------------------------
// Skipping unknown values
// ---------------------------------------------------------------------------

/// Maximum nesting depth accepted when skipping a value of an unknown
/// field, bounding recursion on untrusted input.
pub const MAX_SKIP_DEPTH: u32 = 128;

/// Skip one JSON value of any shape, returning the position just past it.
/// Used for the values of unknown fields, which a decoder must tolerate;
/// no claim is made about them beyond progress.
pub fn skip_value(s: &[u8], start: usize, depth: u32) -> (r: Option<usize>)
    requires
        start <= s@.len(),
    ensures
        r matches Some(j) ==> start < j <= s@.len(),
    decreases depth,
{
    if depth == 0 {
        return None;
    }
    if start == s.len() {
        return None;
    }
    let b = s[start];
    if b == QUOTE {
        match parse_string_content(s, start + 1) {
            Some((_, end)) => Some(end),
            None => None,
        }
    } else if b == LBRACE {
        let mut j = skip_ws(s, start + 1);
        if j < s.len() && s[j] == RBRACE {
            return Some(j + 1);
        }
        loop
            invariant
                start < j <= s@.len(),
                depth >= 1,
            decreases s@.len() - j,
        {
            if !(j < s.len() && s[j] == QUOTE) {
                return None;
            }
            let (_key, after_key) = match parse_string_content(s, j + 1) {
                Some(p) => p,
                None => {
                    return None;
                },
            };
            let mut k = skip_ws(s, after_key);
            if !(k < s.len() && s[k] == COLON) {
                return None;
            }
            k = skip_ws(s, k + 1);
            let after_value = match skip_value(s, k, depth - 1) {
                Some(p) => p,
                None => {
                    return None;
                },
            };
            k = skip_ws(s, after_value);
            if k < s.len() && s[k] == COMMA {
                let next = skip_ws(s, k + 1);
                if next <= j {
                    return None;
                }
                j = next;
            } else if k < s.len() && s[k] == RBRACE {
                return Some(k + 1);
            } else {
                return None;
            }
        }
    } else if b == LBRACKET {
        let mut j = skip_ws(s, start + 1);
        if j < s.len() && s[j] == RBRACKET {
            return Some(j + 1);
        }
        loop
            invariant
                start < j <= s@.len(),
                depth >= 1,
            decreases s@.len() - j,
        {
            let after_value = match skip_value(s, j, depth - 1) {
                Some(p) => p,
                None => {
                    return None;
                },
            };
            let mut k = skip_ws(s, after_value);
            if k < s.len() && s[k] == COMMA {
                let next = skip_ws(s, k + 1);
                if next <= j {
                    return None;
                }
                j = next;
            } else if k < s.len() && s[k] == RBRACKET {
                return Some(k + 1);
            } else {
                return None;
            }
        }
    } else if b == 0x74 || b == 0x66 {
        match parse_bool_value(s, start) {
            Some((_, end)) => Some(end),
            None => None,
        }
    } else if b == 0x6e {
        parse_null_value(s, start)
    } else if b == MINUS || (0x30 <= b && b <= 0x39) {
        let mut j = start + 1;
        while j < s.len() && (
            (0x30 <= s[j] && s[j] <= 0x39) || s[j] == DOT || s[j] == MINUS || s[j] == 0x2b
            || s[j] == 0x65 || s[j] == 0x45
        )
            invariant
                start < j <= s@.len(),
            decreases s@.len() - j,
        {
            j = j + 1;
        }
        Some(j)
    } else {
        None
    }
}

// ---------------------------------------------------------------------------
// The parsers invert the canonical encoding
// ---------------------------------------------------------------------------

/// Powers of ten.
pub open spec fn pow10(k: nat) -> nat
    decreases k,
{
    if k == 0 {
        1
    } else {
        10 * pow10((k - 1) as nat)
    }
}

/// Every byte printed by `spec_dec_digits` is a decimal digit.
pub proof fn lemma_dec_digits_are_digits(n: nat)
    ensures
        forall|j: int| 0 <= j < spec_dec_digits(n).len() ==> is_digit(#[trigger] spec_dec_digits(n)[j]),
        spec_dec_digits(n).len() >= 1,
    decreases n,
{
    if n >= 10 {
        lemma_dec_digits_are_digits(n / 10);
    }
}

/// Parsing the decimal digits of `n` starting from accumulator `acc` lands
/// the parser right after them with the combined value, provided the
/// combined value fits in a `u64`.
pub proof fn lemma_parse_digits(s: Seq<u8>, i: int, acc: nat, n: nat)
    requires
        0 <= i,
        i + spec_dec_digits(n).len() <= s.len(),
        s.subrange(i, i + spec_dec_digits(n).len()) == spec_dec_digits(n),
        acc * pow10(spec_dec_digits(n).len()) + n <= u64::MAX,
    ensures
        sp_digits(s, i, acc) == sp_digits(
            s,
            i + spec_dec_digits(n).len(),
            (acc * pow10(spec_dec_digits(n).len()) + n) as nat,
        ),
    decreases n,
{
    let ds = spec_dec_digits(n);
    let k = ds.len();
    if n < 10 {
        assert(s[i] == s.subrange(i, i + 1)[0]);
        assert(ds[0] == 0x30 + n);
        assert(is_digit(s[i]));
        assert(pow10(0) == 1);
        assert(pow10(1) == 10 * pow10(0));
        assert(acc * pow10(1) == acc * 10) by (nonlinear_arith)
            requires
                pow10(1) == 10,
        {
        }
        assert(sp_digits(s, i, acc) == sp_digits(s, i + 1, (acc * 10 + n) as nat));
    } else {
        let hi = spec_dec_digits(n / 10);
        let kh = hi.len();
        assert(ds == hi + seq![(0x30 + n % 10) as u8]);
        assert(k == kh + 1);
        assert(s.subrange(i, i + kh) =~= hi) by {
            assert(forall|j: int| 0 <= j < kh ==> s.subrange(i, i + k as int)[j] == #[trigger] s[i + j]);
        }
        let p = pow10(kh);
        assert(pow10(k) == 10 * p);
        assert(n == (n / 10) * 10 + n % 10) by {
            vstd::arithmetic::div_mod::lemma_fundamental_div_mod(n as int, 10);
        }
        assert(acc * pow10(k) + n == (acc * p) * 10 + (n / 10) * 10 + n % 10) by (nonlinear_arith)
            requires
                pow10(k) == 10 * p,
                n == (n / 10) * 10 + n % 10,
        {
        }
        let combined_hi = (acc * p + n / 10) as nat;
        assert(combined_hi * 10 == (acc * p) * 10 + (n / 10) * 10);
        assert(combined_hi <= combined_hi * 10);
        assert(combined_hi * 10 + n % 10 == acc * pow10(k) + n);
        assert(combined_hi <= u64::MAX);
        lemma_parse_digits(s, i, acc, n / 10);
        let j = i + kh;
        assert(s[j] == ds[kh as int]);
        assert(ds[kh as int] == 0x30 + n % 10);
        assert(is_digit(s[j]));
        assert(combined_hi * 10 + (s[j] - 0x30) == acc * pow10(k) + n);
        assert(sp_digits(s, j, combined_hi) == sp_digits(s, j + 1, (acc * pow10(k) + n) as nat));
    }
}

/// Parsing an unsigned integer at the canonical printing of `n` yields `n`,
/// provided what follows is not another digit.
pub proof fn lemma_parse_u64_inverts(s: Seq<u8>, i: int, n: nat)
    requires
        0 <= i,
        n <= u64::MAX,
        i + spec_dec_digits(n).len() <= s.len(),
        s.subrange(i, i + spec_dec_digits(n).len()) == spec_dec_digits(n),
        i + spec_dec_digits(n).len() == s.len() || !is_digit(
            s[i + spec_dec_digits(n).len()],
        ),
    ensures
        sp_u64_value(s, i) == Some((n, i + spec_dec_digits(n).len())),
{
    let k = spec_dec_digits(n).len();
    lemma_dec_digits_are_digits(n);
    assert(s[i] == spec_dec_digits(n)[0]);
    assert(is_digit(s[i]));
    assert(0 * pow10(k) + n == n) by (nonlinear_arith)
        requires
            pow10(k as nat) >= 0,
    {
    }
    lemma_parse_digits(s, i, 0, n);
    assert(sp_digits(s, i + k, n) == Some((n, i + k)));
}

/// Parsing a number at the canonical fixed-point printing of `m`
/// thousandths yields `m`, provided what follows cannot extend the number.
pub proof fn lemma_parse_milli_inverts(s: Seq<u8>, i: int, m: nat)
    requires
        0 <= i,
        m <= u32::MAX,
        i + spec_milli_digits(m).len() <= s.len(),
        s.subrange(i, i + spec_milli_digits(m).len()) == spec_milli_digits(m),
        i + spec_milli_digits(m).len() == s.len() || {
            let b = s[i + spec_milli_digits(m).len()];
            !is_digit(b) && b != DOT && b != 0x65 && b != 0x45
        },
    ensures
        sp_milli_value(s, i) == Some((m, i + spec_milli_digits(m).len())),
{
    let ip = m / 1000;
    let hi = spec_dec_digits(ip);
    let kh = hi.len();
    let full = spec_milli_digits(m);
    let k = full.len();
    assert(k == kh + 4);
    lemma_dec_digits_are_digits(ip);
    assert(forall|j: int| 0 <= j < k ==> s[i + j] == #[trigger] full[j]) by {
        assert(forall|j: int| 0 <= j < k ==> #[trigger] s.subrange(i, i + k as int)[j] == s[i
            + j]);
    }
    assert(s.subrange(i, i + kh) =~= hi) by {
        assert(forall|j: int| 0 <= j < kh ==> #[trigger] s.subrange(i, i + kh as int)[j] == s[i
            + j]);
        assert(forall|j: int| 0 <= j < kh ==> #[trigger] full[j] == hi[j]);
    }
    assert(full[0] == hi[0]);
    assert(s[i] == hi[0]);
    assert(is_digit(s[i]));
    assert(ip <= u64::MAX);
    assert(0 * pow10(kh) + ip == ip) by (nonlinear_arith)
        requires
            pow10(kh as nat) >= 0,
    {
    }
    lemma_parse_digits(s, i, 0, ip);
    let j = i + kh;
    let a = m % 1000;
    assert(full[kh as int] == DOT);
    assert(full[kh as int + 1] == 0x30 + a / 100);
    assert(full[kh as int + 2] == 0x30 + (m % 100) / 10);
    assert(full[kh as int + 3] == 0x30 + m % 10);
    assert(s[j] == DOT);
    assert(!is_digit(s[j]));
    assert(sp_digits(s, j, ip) == Some((ip, j)));
    assert(sp_u64_value(s, i) == Some((ip, j)));
    // the three fractional digits
    assert(s[j + 1] == 0x30 + a / 100);
    assert(s[j + 2] == 0x30 + (m % 100) / 10);
    assert(s[j + 3] == 0x30 + m % 10);
    assert(a / 100 <= 9 && (m % 100) / 10 <= 9 && m % 10 <= 9);
    assert(is_digit(s[j + 1]) && is_digit(s[j + 2]) && is_digit(s[j + 3]));
    let after = j + 4;
    assert(after == i + k);
    assert(after == s.len() || !is_digit(s[after]));
    let f1 = ((a / 100) * 100) as nat;
    let f2 = (f1 + ((m % 100) / 10) * 10) as nat;
    let f3 = (f2 + m % 10) as nat;
    assert(sp_frac(s, j + 1, 100, 0) == sp_frac(s, j + 2, 10, f1));
    assert(sp_frac(s, j + 2, 10, f1) == sp_frac(s, j + 3, 1, f2));
    assert(sp_frac(s, j + 3, 1, f2) == sp_frac(s, j + 4, 0, f3));
    assert(sp_frac(s, j + 4, 0, f3) == (f3, j + 4));
    assert(f3 == (a / 100) * 100 + ((m % 100) / 10) * 10 + m % 10);
    assert((a / 100) * 100 + ((m % 100) / 10) * 10 + m % 10 == a) by {
        assert(100 * 10 == 1000);
        assert(10 * 100 == 1000);
        vstd::arithmetic::div_mod::lemma_mod_mod(m as int, 100, 10);
        vstd::arithmetic::div_mod::lemma_mod_mod(m as int, 10, 100);
        vstd::arithmetic::div_mod::lemma_mod_mod(m as int, 10, 10);
        vstd::arithmetic::div_mod::lemma_fundamental_div_mod(a as int, 100);
        vstd::arithmetic::div_mod::lemma_fundamental_div_mod((m % 100) as int, 10);
    }
    assert(ip * 1000 + a == m) by {
        vstd::arithmetic::div_mod::lemma_fundamental_div_mod(m as int, 1000);
    }
    assert(ip * 1000 + a <= u32::MAX);
    assert(f3 == a);
    assert(j + 1 < s.len() && is_digit(s[j + 1]));
    assert(!(after < s.len() && (s[after] == 0x65 || s[after] == 0x45)));
    assert(sp_milli_value(s, i) == Some((m, i + k)));
}

/// Parsing a boolean at the canonical printing of `b` yields `b`.
pub proof fn lemma_parse_bool_inverts(s: Seq<u8>, i: int, b: bool)
    requires
        0 <= i,
        i + spec_bool_bytes(b).len() <= s.len(),
        s.subrange(i, i + spec_bool_bytes(b).len()) == spec_bool_bytes(b),
    ensures
        sp_bool_value(s, i) == Some((b, i + spec_bool_bytes(b).len())),
{
    if b {
        assert(s.subrange(i, i + 4) == spec_bool_bytes(true));
    } else {
        assert(s.subrange(i, i + 5) == spec_bool_bytes(false));
        if i + 4 <= s.len() && s.subrange(i, i + 4) == spec_bool_bytes(true) {
            assert(s[i] == 0x74);
            assert(s[i] == spec_bool_bytes(false)[0]);
            assert(false);
        }
    }
}

/// Parsing string content at the canonical escape of `content` (followed by
/// the closing quote) yields exactly `content`.
pub proof fn lemma_parse_string_inverts(s: Seq<u8>, i: int, acc: Seq<u8>, content: Seq<u8>)
    requires
        0 <= i <= s.len(),
        spec_escape_bytes(content).len() + 1 <= s.len() - i,
        s.subrange(i, i + spec_escape_bytes(content).len() + 1) == spec_escape_bytes(content)
            + seq![QUOTE],
    ensures
        sp_string_content(s, i, acc) == Some::<(Seq<u8>, int)>(
            (acc + content, i + spec_escape_bytes(content).len() + 1),
        ),
    decreases content.len(),
{
    let esc = spec_escape_bytes(content);
    let window = s.subrange(i, i + esc.len() + 1);
    assert(forall|j: int| 0 <= j < esc.len() + 1 ==> #[trigger] window[j] == s[i + j]);
    if content.len() == 0 {
        assert(esc.len() == 0);
        assert(window[0] == QUOTE);
        assert(s[i] == QUOTE);
        assert(acc + content =~= acc);
    } else {
        let c = content[0];
        let tail = content.drop_first();
        let esc_tail = spec_escape_bytes(tail);
        assert(esc == spec_escape_byte(c) + esc_tail);
        let w = spec_escape_byte(c).len();
        assert(s.subrange(i + w, i + w + esc_tail.len() + 1) =~= esc_tail + seq![QUOTE]) by {
            assert(forall|j: int| 0 <= j < esc_tail.len() + 1 ==> #[trigger] s.subrange(
                i + w,
                i + w + esc_tail.len() + 1,
            )[j] == s[i + w + j]);
            assert(forall|j: int| 0 <= j < esc_tail.len() + 1 ==> #[trigger] (esc_tail
                + seq![QUOTE])[j] == (esc + seq![QUOTE])[w + j]);
        }
        if c == QUOTE {
            assert(window[0] == spec_escape_byte(c)[0] && window[1] == spec_escape_byte(c)[1]);
            assert(s[i] == BACKSLASH && s[i + 1] == QUOTE);
            lemma_parse_string_inverts(s, i + 2, acc.push(QUOTE), tail);
            assert(acc.push(c) + tail =~= acc + content);
        } else if c == BACKSLASH {
            assert(window[0] == spec_escape_byte(c)[0] && window[1] == spec_escape_byte(c)[1]);
            assert(s[i] == BACKSLASH && s[i + 1] == BACKSLASH);
            lemma_parse_string_inverts(s, i + 2, acc.push(BACKSLASH), tail);
            assert(acc.push(c) + tail =~= acc + content);
        } else if c < 0x20 {
            assert(window[0] == spec_escape_byte(c)[0] && window[1] == spec_escape_byte(c)[1]
                && window[2] == spec_escape_byte(c)[2] && window[3] == spec_escape_byte(c)[3]
                && window[4] == spec_escape_byte(c)[4] && window[5] == spec_escape_byte(c)[5]);
            assert(s[i] == BACKSLASH && s[i + 1] == 0x75 && s[i + 2] == 0x30 && s[i + 3] == 0x30);
            assert(s[i + 4] == spec_hex_digit(c / 16) && s[i + 5] == spec_hex_digit(c % 16));
            assert(c / 16 < 16 && c % 16 < 16);
            lemma_hex_digit_val(c / 16);
            lemma_hex_digit_val(c % 16);
            let code = spec_hex_val(s[i + 2]) * 4096 + spec_hex_val(s[i + 3]) * 256 + spec_hex_val(
                s[i + 4],
            ) * 16 + spec_hex_val(s[i + 5]);
            assert(code == (c / 16) * 16 + c % 16);
            assert(code == c) by {
                vstd::arithmetic::div_mod::lemma_fundamental_div_mod(c as int, 16);
            }
            assert(!is_surrogate(code));
            let cu = code as u32;
            assert(cu == code);
            assert(encode_scalar(cu) =~= seq![c]) by {
                assert(cu & 0x7F == cu) by (bit_vector)
                    requires cu < 0x20;
            }
            assert(acc + encode_scalar(code as u32) =~= acc.push(c));
            lemma_parse_string_inverts(s, i + 6, acc.push(c), tail);
            assert(acc.push(c) + tail =~= acc + content);
        } else {
            assert(window[0] == spec_escape_byte(c)[0]);
            assert(s[i] == c);
            assert(c != QUOTE && c != BACKSLASH);
            lemma_parse_string_inverts(s, i + 1, acc.push(c), tail);
            assert(acc.push(c) + tail =~= acc + content);
        }
    }
}

/// `null` cannot start at a byte other than `n`.
pub proof fn lemma_null_value_none(s: Seq<u8>, i: int)
    requires
        0 <= i < s.len(),
        s[i] != 0x6e,
    ensures
        sp_null_value(s, i) is None,
{
    if i + 4 <= s.len() && s.subrange(i, i + 4) == spec_null_bytes() {
        assert(s.subrange(i, i + 4)[0] == s[i]);
        assert(spec_null_bytes()[0] == 0x6e);
    }
}

/// Whitespace skipping stops immediately on a non-whitespace byte.
pub proof fn lemma_ws_noop(s: Seq<u8>, i: int)
    requires
        0 <= i <= s.len(),
        i < s.len() ==> !is_ws(s[i]),
    ensures
        sp_ws(s, i) == i,
{
}

/// `spec_hex_digit` produces a hex digit that reads back as its input.
pub proof fn lemma_hex_digit_val(v: u8)
    requires
        v < 16,
    ensures
        is_hex(spec_hex_digit(v)),
        spec_hex_val(spec_hex_digit(v)) == v,
{
}

/// The characters of a sequence of ASCII bytes.
pub open spec fn ascii_chars_of(b: Seq<u8>) -> Seq<char> {
    Seq::new(b.len(), |i: int| b[i] as char)
}

/// A sequence of ASCII bytes is valid UTF-8 and decodes to its bytes read
/// as characters.
pub proof fn lemma_ascii_bytes_utf8(b: Seq<u8>)
    requires
        forall|i: int| 0 <= i < b.len() ==> b[i] < 0x80,
    ensures
        valid_utf8(b),
        decode_utf8(b) == ascii_chars_of(b),
        encode_utf8(ascii_chars_of(b)) == b,
{
    let chars = ascii_chars_of(b);
    assert(vstd::utf8::is_ascii_chars(chars)) by {
        assert forall|i: int| 0 <= i < chars.len() implies '\0' <= #[trigger] chars[i]
            <= '\u{7f}' by {
            assert(b[i] < 0x80);
        }
    }
    vstd::utf8::is_ascii_chars_encode_utf8(chars);
    assert(encode_utf8(chars) =~= b) by {
        assert(forall|i: int| 0 <= i < chars.len() ==> #[trigger] encode_utf8(chars)[i] == chars[i]
            as u8);
    }
    broadcast use vstd::utf8::encode_utf8_valid_utf8, vstd::utf8::encode_utf8_decode_utf8;

    assert(valid_utf8(encode_utf8(chars)));
    assert(decode_utf8(encode_utf8(chars)) == chars);
}

/// Relies on `String::from_utf8`: succeeds exactly on valid UTF-8 input and
/// decodes it; anything else is rejected.
#[verifier::external_body]
pub(crate) fn bytes_to_string(v: Vec<u8>) -> (r: Option<String>)
    ensures
        match r {
            Some(s) => valid_utf8(v@) && s@ == decode_utf8(v@),
            None => !valid_utf8(v@),
        },
{
    match String::from_utf8(v) {
        Ok(s) => Some(s),
        Err(_) => None,
    }
}

/// The decimal printing of `n`, as characters.
pub open spec fn spec_u64_chars(n: nat) -> Seq<char> {
    ascii_chars_of(spec_dec_digits(n))
}

/// Print a number in decimal.
pub fn u64_string(n: u64) -> (r: String)
    ensures
        r@ == spec_u64_chars(n as nat),
{
    let mut digits: Vec<u8> = Vec::new();
    emit_u64(&mut digits, n);
    proof {
        lemma_dec_digits_are_digits(n as nat);
        lemma_ascii_bytes_utf8(digits@);
    }
    match bytes_to_string(digits) {
        Some(s) => s,
        None => vstd::pervasive::unreached(),
    }
}

/// Equality of two string slices, decided on their UTF-8 bytes.
pub fn str_eq(a: &str, b: &str) -> (r: bool)
    ensures
        r <==> a@ == b@,
{
    let r = bytes_eq(a.as_bytes(), b.as_bytes());
    proof {
        broadcast use vstd::utf8::encode_utf8_decode_utf8;

        if encode_utf8(a@) == encode_utf8(b@) {
            assert(decode_utf8(encode_utf8(a@)) == decode_utf8(encode_utf8(b@)));
        }
    }
    r
}

/// Byte-wise equality of two slices.
pub fn bytes_eq(a: &[u8], b: &[u8]) -> (r: bool)
    ensures
        r <==> a@ == b@,
{
    if a.len() != b.len() {
        assert(a@ != b@) by {
            assert(a@.len() != b@.len());
        }
        return false;
    }
    let mut i: usize = 0;
    while i < a.len()
        invariant
            i <= a@.len(),
            a@.len() == b@.len(),
            forall|j: int| 0 <= j < i ==> a@[j] == b@[j],
        decreases a@.len() - i,
    {
        if a[i] != b[i] {
            return false;
        }
        i = i + 1;
    }
    proof {
        assert(a@ =~= b@);
    }
    true
}

} // verus!
