//! Rendering of a finalized 64-bit checksum as lowercase hex, uppercase hex,
//! or base64 of its big-endian bytes, with the mode-selection precedence.

use vstd::prelude::*;
use vstd::string::StringExecFns;

verus! {

/// The three mutually exclusive rendering modes.
#[derive(Clone, Copy, PartialEq, Eq, Structural, Debug)]
pub enum OutputMode {
    HexLower,
    HexUpper,
    Base64Default,
}

/// Mode selection as an ordered decision: a lowercase-hex request always
/// wins; otherwise an uppercase request selects uppercase hex; otherwise
/// base64 is used.
pub open spec fn mode_spec(uppercase: bool, hex: bool) -> OutputMode {
    if hex {
        OutputMode::HexLower
    } else if uppercase {
        OutputMode::HexUpper
    } else {
        OutputMode::Base64Default
    }
}

/// Derives the rendering mode from the two request flags.
pub fn select_mode(uppercase: bool, hex: bool) -> (m: OutputMode)
    ensures
        m == mode_spec(uppercase, hex),
{
    if hex {
        OutputMode::HexLower
    } else if uppercase {
        OutputMode::HexUpper
    } else {
        OutputMode::Base64Default
    }
}

/// Precedence law: whenever lowercase hex is requested, the mode is lowercase
/// hex, whether or not uppercase is requested at the same time.
pub proof fn lemma_hex_request_wins(uppercase: bool)
    ensures
        mode_spec(uppercase, true) == OutputMode::HexLower,
{
}

/// The lowercase hex digit for a nibble value.
pub open spec fn hex_digit_lower(n: u64) -> char {
    if n == 0 { '0' } else if n == 1 { '1' } else if n == 2 { '2' } else if n == 3 { '3' }
    else if n == 4 { '4' } else if n == 5 { '5' } else if n == 6 { '6' } else if n == 7 { '7' }
    else if n == 8 { '8' } else if n == 9 { '9' } else if n == 10 { 'a' } else if n == 11 { 'b' }
    else if n == 12 { 'c' } else if n == 13 { 'd' } else if n == 14 { 'e' } else { 'f' }
}

/// The uppercase hex digit for a nibble value.
pub open spec fn hex_digit_upper(n: u64) -> char {
    if n == 0 { '0' } else if n == 1 { '1' } else if n == 2 { '2' } else if n == 3 { '3' }
    else if n == 4 { '4' } else if n == 5 { '5' } else if n == 6 { '6' } else if n == 7 { '7' }
    else if n == 8 { '8' } else if n == 9 { '9' } else if n == 10 { 'A' } else if n == 11 { 'B' }
    else if n == 12 { 'C' } else if n == 13 { 'D' } else if n == 14 { 'E' } else { 'F' }
}

/// Nibble `i` of `v`, most significant first.
pub open spec fn nibble_of(v: u64, i: int) -> u64 {
    (v >> ((4 * (15 - i)) as u64)) & 0xf
}

/// The 16-character, zero-padded, lowercase hex rendering of `v`.
pub open spec fn hex_lower_of(v: u64) -> Seq<char> {
    Seq::new(16, |i: int| hex_digit_lower(nibble_of(v, i)))
}

/// The 16-character, zero-padded, uppercase hex rendering of `v`.
pub open spec fn hex_upper_of(v: u64) -> Seq<char> {
    Seq::new(16, |i: int| hex_digit_upper(nibble_of(v, i)))
}

pub(crate) fn hex_char_lower(n: u64) -> (r: &'static str)
    requires
        n < 16,
    ensures
        r@ == seq![hex_digit_lower(n)],
{
    let s: &'static str = if n == 0 { "0" } else if n == 1 { "1" } else if n == 2 { "2" }
    else if n == 3 { "3" } else if n == 4 { "4" } else if n == 5 { "5" } else if n == 6 { "6" }
    else if n == 7 { "7" } else if n == 8 { "8" } else if n == 9 { "9" } else if n == 10 { "a" }
    else if n == 11 { "b" } else if n == 12 { "c" } else if n == 13 { "d" } else if n == 14 { "e" }
    else { "f" };
    proof {
        reveal_strlit("0"); reveal_strlit("1"); reveal_strlit("2"); reveal_strlit("3");
        reveal_strlit("4"); reveal_strlit("5"); reveal_strlit("6"); reveal_strlit("7");
        reveal_strlit("8"); reveal_strlit("9"); reveal_strlit("a"); reveal_strlit("b");
        reveal_strlit("c"); reveal_strlit("d"); reveal_strlit("e"); reveal_strlit("f");
        assert(s@ =~= seq![hex_digit_lower(n)]);
    }
    s
}

fn hex_char_upper(n: u64) -> (r: &'static str)
    requires
        n < 16,
    ensures
        r@ == seq![hex_digit_upper(n)],
{
    let s: &'static str = if n == 0 { "0" } else if n == 1 { "1" } else if n == 2 { "2" }
    else if n == 3 { "3" } else if n == 4 { "4" } else if n == 5 { "5" } else if n == 6 { "6" }
    else if n == 7 { "7" } else if n == 8 { "8" } else if n == 9 { "9" } else if n == 10 { "A" }
    else if n == 11 { "B" } else if n == 12 { "C" } else if n == 13 { "D" } else if n == 14 { "E" }
    else { "F" };
    proof {
        reveal_strlit("0"); reveal_strlit("1"); reveal_strlit("2"); reveal_strlit("3");
        reveal_strlit("4"); reveal_strlit("5"); reveal_strlit("6"); reveal_strlit("7");
        reveal_strlit("8"); reveal_strlit("9"); reveal_strlit("A"); reveal_strlit("B");
        reveal_strlit("C"); reveal_strlit("D"); reveal_strlit("E"); reveal_strlit("F");
        assert(s@ =~= seq![hex_digit_upper(n)]);
    }
    s
}

/// Renders `v` as 16 lowercase hex characters, most significant nibble first.
pub fn to_hex_lower(v: u64) -> (r: String)
    ensures
        r@ == hex_lower_of(v),
{
    let mut out = String::new();
    let mut i: usize = 0;
    while i < 16
        invariant
            i <= 16,
            out@ == hex_lower_of(v).take(i as int),
        decreases 16 - i,
    {
        let shift: u64 = (60 - 4 * i) as u64;
        let n: u64 = (v >> shift) & 0xf;
        proof {
            assert((v >> shift) & 0xf < 16) by (bit_vector);
            assert(n == nibble_of(v, i as int));
        }
        out.append(hex_char_lower(n));
        proof {
            assert(out@ =~= hex_lower_of(v).take(i + 1));
        }
        i = i + 1;
    }
    proof {
        assert(hex_lower_of(v).take(16) =~= hex_lower_of(v));
    }
    out
}

/// Renders `v` as 16 uppercase hex characters, most significant nibble first.
pub fn to_hex_upper(v: u64) -> (r: String)
    ensures
        r@ == hex_upper_of(v),
{
    let mut out = String::new();
    let mut i: usize = 0;
    while i < 16
        invariant
            i <= 16,
            out@ == hex_upper_of(v).take(i as int),
        decreases 16 - i,
    {
        let shift: u64 = (60 - 4 * i) as u64;
        let n: u64 = (v >> shift) & 0xf;
        proof {
            assert((v >> shift) & 0xf < 16) by (bit_vector);
            assert(n == nibble_of(v, i as int));
        }
        out.append(hex_char_upper(n));
        proof {
            assert(out@ =~= hex_upper_of(v).take(i + 1));
        }
        i = i + 1;
    }
    proof {
        assert(hex_upper_of(v).take(16) =~= hex_upper_of(v));
    }
    out
}

/// The eight big-endian bytes of `v`, most significant first.
pub open spec fn be_bytes_of(v: u64) -> Seq<u8> {
    seq![
        ((v >> 56) & 0xff) as u8,
        ((v >> 48) & 0xff) as u8,
        ((v >> 40) & 0xff) as u8,
        ((v >> 32) & 0xff) as u8,
        ((v >> 24) & 0xff) as u8,
        ((v >> 16) & 0xff) as u8,
        ((v >> 8) & 0xff) as u8,
        (v & 0xff) as u8,
    ]
}

/// Splits `v` into its eight big-endian bytes.
pub fn u64_to_be_bytes(v: u64) -> (r: Vec<u8>)
    ensures
        r@ == be_bytes_of(v),
{
    let mut out: Vec<u8> = Vec::new();
    out.push(((v >> 56) & 0xff) as u8);
    out.push(((v >> 48) & 0xff) as u8);
    out.push(((v >> 40) & 0xff) as u8);
    out.push(((v >> 32) & 0xff) as u8);
    out.push(((v >> 24) & 0xff) as u8);
    out.push(((v >> 16) & 0xff) as u8);
    out.push(((v >> 8) & 0xff) as u8);
    out.push((v & 0xff) as u8);
    proof {
        assert(out@ =~= be_bytes_of(v));
    }
    out
}

/// The classic 64-character base64 alphabet.
pub open spec fn b64_alphabet() -> Seq<char> {
    seq![
        'A', 'B', 'C', 'D', 'E', 'F', 'G', 'H', 'I', 'J', 'K', 'L', 'M',
        'N', 'O', 'P', 'Q', 'R', 'S', 'T', 'U', 'V', 'W', 'X', 'Y', 'Z',
        'a', 'b', 'c', 'd', 'e', 'f', 'g', 'h', 'i', 'j', 'k', 'l', 'm',
        'n', 'o', 'p', 'q', 'r', 's', 't', 'u', 'v', 'w', 'x', 'y', 'z',
        '0', '1', '2', '3', '4', '5', '6', '7', '8', '9', '+', '/',
    ]
}

/// The base64 character for a 6-bit value.
pub open spec fn b64_char(n: u8) -> char
    recommends
        n < 64,
{
    b64_alphabet()[n as int]
}

/// The standard base64 rendering of eight bytes: eleven alphabet characters
/// for the 64 data bits (6 bits each, the last padded with two zero bits),
/// then one '=' pad, 12 characters in all.
pub open spec fn base64_of_8(b: Seq<u8>) -> Seq<char>
    recommends
        b.len() == 8,
{
    seq![
        b64_char(b[0] >> 2),
        b64_char(((b[0] & 0x03) << 4) | (b[1] >> 4)),
        b64_char(((b[1] & 0x0f) << 2) | (b[2] >> 6)),
        b64_char(b[2] & 0x3f),
        b64_char(b[3] >> 2),
        b64_char(((b[3] & 0x03) << 4) | (b[4] >> 4)),
        b64_char(((b[4] & 0x0f) << 2) | (b[5] >> 6)),
        b64_char(b[5] & 0x3f),
        b64_char(b[6] >> 2),
        b64_char(((b[6] & 0x03) << 4) | (b[7] >> 4)),
        b64_char((b[7] & 0x0f) << 2),
        '=',
    ]
}

/// Relies on base64's `STANDARD` engine (the RFC 4648 alphabet with '='
/// padding): `Engine::encode` of eight bytes yields eleven alphabet
/// characters and one trailing pad.
#[verifier::external_body]
fn base64_encode_8(bytes: &Vec<u8>) -> (r: String)
    requires
        bytes@.len() == 8,
    ensures
        r@ == base64_of_8(bytes@),
{
    base64::Engine::encode(&base64::engine::general_purpose::STANDARD, bytes.as_slice())
}

/// Renders `v` as the standard base64 encoding of its eight big-endian bytes.
pub fn to_base64(v: u64) -> (r: String)
    ensures
        r@ == base64_of_8(be_bytes_of(v)),
{
    let bytes = u64_to_be_bytes(v);
    base64_encode_8(&bytes)
}

/// The text a checksum value renders to under each mode.
pub open spec fn format_spec(v: u64, mode: OutputMode) -> Seq<char> {
    match mode {
        OutputMode::HexLower => hex_lower_of(v),
        OutputMode::HexUpper => hex_upper_of(v),
        OutputMode::Base64Default => base64_of_8(be_bytes_of(v)),
    }
}

/// Renders a finalized checksum value under the given mode.
pub fn format_value(v: u64, mode: OutputMode) -> (r: String)
    ensures
        r@ == format_spec(v, mode),
{
    match mode {
        OutputMode::HexLower => to_hex_lower(v),
        OutputMode::HexUpper => to_hex_upper(v),
        OutputMode::Base64Default => to_base64(v),
    }
}

/// Renders a finalized checksum value under the mode the two request flags
/// select: lowercase hex if `hex`, else uppercase hex if `uppercase`, else
/// base64.
pub fn format_checksum(sum: u64, uppercase: bool, hex: bool) -> (r: String)
    ensures
        r@ == format_spec(sum, mode_spec(uppercase, hex)),
{
    let mode = select_mode(uppercase, hex);
    format_value(sum, mode)
}

/// Every 6-bit group drawn from two bytes is a valid alphabet index.
proof fn lemma_b64_index_bounds(x: u8, y: u8)
    by (bit_vector)
    ensures
        (x >> 2) < 64,
        (((x & 0x03) << 4) | (y >> 4)) < 64,
        (((x & 0x0f) << 2) | (y >> 6)) < 64,
        (x & 0x3f) < 64,
        ((x & 0x0f) << 2) < 64,
{
}

/// No base64 alphabet character is the pad character.
proof fn lemma_b64_char_no_pad(n: u8)
    requires
        n < 64,
    ensures
        b64_char(n) != '=',
{
}

/// Format invariants: hex renderings are exactly 16 characters; base64
/// renderings are exactly 12 characters ending in exactly one '='.
pub proof fn lemma_format_lengths(v: u64, mode: OutputMode)
    ensures
        mode != OutputMode::Base64Default ==> format_spec(v, mode).len() == 16,
        mode == OutputMode::Base64Default ==> format_spec(v, mode).len() == 12,
        mode == OutputMode::Base64Default ==> format_spec(v, mode).last() == '=',
        mode == OutputMode::Base64Default ==> forall|i: int|
            0 <= i < 11 ==> format_spec(v, mode)[i] != '=',
{
    if mode == OutputMode::Base64Default {
        let b = be_bytes_of(v);
        lemma_b64_index_bounds(b[0], b[1]);
        lemma_b64_index_bounds(b[1], b[2]);
        lemma_b64_index_bounds(b[2], b[3]);
        lemma_b64_index_bounds(b[3], b[4]);
        lemma_b64_index_bounds(b[4], b[5]);
        lemma_b64_index_bounds(b[5], b[6]);
        lemma_b64_index_bounds(b[6], b[7]);
        lemma_b64_index_bounds(b[7], b[0]);
        assert forall|i: int| 0 <= i < 11 implies format_spec(v, mode)[i] != '=' by {
            lemma_b64_char_no_pad(b[0] >> 2);
            lemma_b64_char_no_pad(((b[0] & 0x03) << 4) | (b[1] >> 4));
            lemma_b64_char_no_pad(((b[1] & 0x0f) << 2) | (b[2] >> 6));
            lemma_b64_char_no_pad(b[2] & 0x3f);
            lemma_b64_char_no_pad(b[3] >> 2);
            lemma_b64_char_no_pad(((b[3] & 0x03) << 4) | (b[4] >> 4));
            lemma_b64_char_no_pad(((b[4] & 0x0f) << 2) | (b[5] >> 6));
            lemma_b64_char_no_pad(b[5] & 0x3f);
            lemma_b64_char_no_pad(b[6] >> 2);
            lemma_b64_char_no_pad(((b[6] & 0x03) << 4) | (b[7] >> 4));
            lemma_b64_char_no_pad((b[7] & 0x0f) << 2);
        }
    }
}

} // verus!
