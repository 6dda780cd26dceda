//! The hex-text / byte-buffer codec.
//!
//! Decoding reads text left to right: every character must be a hex digit
//! (either case), characters are paired into bytes (high nibble first), and
//! a trailing unpaired digit is dropped. A single non-hex character anywhere
//! makes the whole text invalid. Encoding writes two uppercase digits per
//! byte, with no separators.

use vstd::prelude::*;

verus! {

/// The outcome of decoding a piece of text: either the byte buffer it
/// denotes, or a marker that the text holds a non-hex character.
#[derive(Debug, Clone, PartialEq, Eq)]
pub enum DecodeResult {
    Valid(Vec<u8>),
    Invalid,
}

/// A hex digit: `0-9`, `a-f` or `A-F`.
pub open spec fn is_hex_digit(c: char) -> bool {
    ('0' as u32 <= c as u32 && c as u32 <= '9' as u32)
        || ('a' as u32 <= c as u32 && c as u32 <= 'f' as u32)
        || ('A' as u32 <= c as u32 && c as u32 <= 'F' as u32)
}

/// Every character of the text is a hex digit.
pub open spec fn all_hex(s: Seq<char>) -> bool {
    forall|i: int| 0 <= i < s.len() ==> is_hex_digit(#[trigger] s[i])
}

/// The value of one hex digit, as a 4-bit nibble.
pub open spec fn nibble_val(c: char) -> int
    recommends
        is_hex_digit(c),
{
    if '0' as u32 <= c as u32 && c as u32 <= '9' as u32 {
        c as u32 - '0' as u32
    } else if 'a' as u32 <= c as u32 && c as u32 <= 'f' as u32 {
        c as u32 - 'a' as u32 + 10
    } else {
        c as u32 - 'A' as u32 + 10
    }
}

/// The byte denoted by a pair of hex digits, high nibble first.
pub open spec fn pair_val(hi: char, lo: char) -> u8
    recommends
        is_hex_digit(hi),
        is_hex_digit(lo),
{
    (16 * nibble_val(hi) + nibble_val(lo)) as u8
}

/// The bytes denoted by a text of hex digits: one byte per complete pair of
/// characters, in text order; a trailing unpaired digit contributes nothing.
pub open spec fn decode_pairs(s: Seq<char>) -> Seq<u8> {
    Seq::new(s.len() / 2, |i: int| pair_val(s[2 * i], s[2 * i + 1]))
}

/// The uppercase hex digit for a 4-bit nibble.
pub open spec fn hex_char(n: int) -> char
    recommends
        0 <= n < 16,
{
    if n < 10 {
        (('0' as u8) + n) as char
    } else {
        (('A' as u8) + (n - 10)) as char
    }
}

/// The canonical hex text for a byte buffer: two uppercase digits per byte,
/// high nibble first, in buffer order, with no separators.
pub open spec fn encode_bytes(b: Seq<u8>) -> Seq<char> {
    Seq::new(
        2 * b.len(),
        |i: int|
            if i % 2 == 0 {
                hex_char(b[i / 2] as int / 16)
            } else {
                hex_char(b[i / 2] as int % 16)
            },
    )
}

fn is_hex_digit_exec(c: char) -> (b: bool)
    ensures
        b == is_hex_digit(c),
{
    let u = c as u32;
    (48 <= u && u <= 57) || (97 <= u && u <= 102) || (65 <= u && u <= 70)
}

fn hex_digit_value(c: char) -> (v: u8)
    requires
        is_hex_digit(c),
    ensures
        v as int == nibble_val(c),
        v < 16,
{
    let u = c as u32;
    if u <= 57 {
        (u - 48) as u8
    } else if u >= 97 {
        (u - 87) as u8
    } else {
        (u - 55) as u8
    }
}

fn hex_char_exec(n: u8) -> (c: char)
    requires
        n < 16,
    ensures
        c == hex_char(n as int),
{
    if n < 10 {
        (48 + n) as char
    } else {
        (55 + n) as char
    }
}

proof fn lemma_hex_char_inverts(n: int)
    requires
        0 <= n < 16,
    ensures
        is_hex_digit(hex_char(n)),
        nibble_val(hex_char(n)) == n,
{
}

/// Round trip: the canonical encoding of any byte buffer is a text of hex
/// digits only, and decoding that text yields exactly the original bytes.
pub proof fn lemma_round_trip(b: Seq<u8>)
    ensures
        all_hex(encode_bytes(b)),
        decode_pairs(encode_bytes(b)) == b,
{
    let e = encode_bytes(b);
    assert forall|i: int| 0 <= i < e.len() implies is_hex_digit(#[trigger] e[i]) by {
        if i % 2 == 0 {
            lemma_hex_char_inverts(b[i / 2] as int / 16);
        } else {
            lemma_hex_char_inverts(b[i / 2] as int % 16);
        }
    }
    assert forall|i: int| 0 <= i < b.len() implies decode_pairs(e)[i] == b[i] by {
        lemma_hex_char_inverts(b[i] as int / 16);
        lemma_hex_char_inverts(b[i] as int % 16);
        assert(e[2 * i] == hex_char(b[i] as int / 16));
        assert(e[2 * i + 1] == hex_char(b[i] as int % 16));
        assert(16 * (b[i] as int / 16) + b[i] as int % 16 == b[i] as int);
    }
    assert(decode_pairs(e) =~= b);
}

/// Decoding a text of hex digits yields one byte per complete pair of
/// characters: half the text's length, rounded down, whether the length is
/// even (every character is consumed) or odd (the trailing digit is
/// dropped, not an error).
pub proof fn lemma_decoded_length(s: Seq<char>)
    ensures
        decode_pairs(s).len() == s.len() / 2,
{
}

/// Decode user-typed text into a byte buffer.
///
/// The text is read left to right and case-insensitively. If any character
/// is not a hex digit the whole text is invalid, wherever that character
/// stands. Otherwise characters are paired into bytes, high nibble first,
/// and a trailing unpaired digit is dropped; empty text decodes to an empty
/// buffer.
pub fn decode(text: &str) -> (r: DecodeResult)
    ensures
        all_hex(text@) ==> (r matches DecodeResult::Valid(v) && v@ == decode_pairs(text@)),
        !all_hex(text@) ==> r matches DecodeResult::Invalid,
{
    let n: usize = text.unicode_len();
    let mut i: usize = 0;
    while i < n
        invariant
            n == text@.len(),
            i <= n,
            forall|k: int| 0 <= k < i ==> is_hex_digit(#[trigger] text@[k]),
        decreases n - i,
    {
        let c = text.get_char(i);
        if !is_hex_digit_exec(c) {
            return DecodeResult::Invalid;
        }
        i += 1;
    }
    let mut out: Vec<u8> = Vec::new();
    let mut j: usize = 0;
    while j + 1 < n
        invariant
            n == text@.len(),
            all_hex(text@),
            j % 2 == 0,
            j <= n,
            out@ == decode_pairs(text@).take(j as int / 2),
        decreases n - j,
    {
        let hi = text.get_char(j);
        let lo = text.get_char(j + 1);
        let h = hex_digit_value(hi);
        let l = hex_digit_value(lo);
        out.push(16 * h + l);
        proof {
            assert(out@ =~= decode_pairs(text@).take(j as int / 2 + 1));
        }
        j += 2;
    }
    proof {
        assert(j as int / 2 == n as int / 2);
        assert(out@ =~= decode_pairs(text@));
    }
    DecodeResult::Valid(out)
}

/// Relies on `String::push`: appends the given character to the end of the
/// string.
#[verifier::external_body]
fn push_char(s: &mut String, c: char)
    ensures
        final(s)@ == old(s)@.push(c),
{
    s.push(c);
}

/// Encode a byte buffer as hex text: two uppercase digits per byte, high
/// nibble first, in buffer order, with no separators. Never fails.
pub fn encode(bytes: &Vec<u8>) -> (s: String)
    ensures
        s@ == encode_bytes(bytes@),
{
    let mut s = String::new();
    let mut i: usize = 0;
    while i < bytes.len()
        invariant
            i <= bytes@.len(),
            s@ == encode_bytes(bytes@).take(2 * i as int),
        decreases bytes@.len() - i,
    {
        let b = bytes[i];
        push_char(&mut s, hex_char_exec(b / 16));
        push_char(&mut s, hex_char_exec(b % 16));
        proof {
            assert(s@ =~= encode_bytes(bytes@).take(2 * (i as int + 1)));
        }
        i += 1;
    }
    proof {
        assert(s@ =~= encode_bytes(bytes@));
    }
    s
}

} // verus!
