//! Hex encoding of display file names: the display names its files by the
//! lower-case hex of their ASCII names (`F_1389.bin` is `465f313338392e62696e`).

use vstd::prelude::*;
use vstd::utf8::*;
use vstd::string::StringSliceAdditionalSpecFns;
use crate::text::{all_ascii, ascii_chars, ascii_string, lemma_ascii_encode, string_from_chars};

verus! {

/// Longest file name, in bytes, that the display's name fields hold.
pub const FILENAME_MAX_LEN: usize = 32;

/// The value of one hex digit, either case.
pub open spec fn hex_digit_value(b: u8) -> Option<u8> {
    if 0x30 <= b <= 0x39 {
        Some((b - 0x30) as u8)
    } else if 0x61 <= b <= 0x66 {
        Some((b - 0x61 + 10) as u8)
    } else if 0x41 <= b <= 0x46 {
        Some((b - 0x41 + 10) as u8)
    } else {
        None
    }
}

/// The lower-case hex digit of a nibble; `'0'` for anything above 15.
pub open spec fn hex_digit_char(n: u8) -> char {
    if n <= 9 {
        ((0x30 + n) as u8) as char
    } else if n <= 15 {
        ((0x61 + n - 10) as u8) as char
    } else {
        '0'
    }
}

/// An even number of hex digits.
pub open spec fn is_hex_text(h: Seq<u8>) -> bool {
    &&& h.len() % 2 == 0
    &&& forall|i: int| 0 <= i < h.len() ==> (#[trigger] hex_digit_value(h[i])) is Some
}

/// The bytes that a hex text stands for, two digits per byte, high nibble first.
pub open spec fn hex_decoded(h: Seq<u8>) -> Seq<u8> {
    Seq::new(
        (h.len() / 2) as nat,
        |k: int| (hex_digit_value(h[2 * k])->0 * 16 + hex_digit_value(h[2 * k + 1])->0) as u8,
    )
}

/// The lower-case hex text of some bytes.
pub open spec fn hex_encoded(b: Seq<u8>) -> Seq<char> {
    Seq::new(
        (2 * b.len()) as nat,
        |i: int|
            if i % 2 == 0 {
                hex_digit_char(b[i / 2] / 16)
            } else {
                hex_digit_char(b[i / 2] % 16)
            },
    )
}

/// What decoding a hex file name gives: the name, when the text is hex, every
/// decoded byte is ASCII and the name fits the name field.
pub open spec fn decoded_filename(h: Seq<u8>) -> Option<Seq<char>> {
    if is_hex_text(h) && all_ascii(hex_decoded(h)) && h.len() <= 2 * FILENAME_MAX_LEN {
        Some(ascii_chars(hex_decoded(h)))
    } else {
        None
    }
}

/// What encoding a file name gives: its hex text, when the name fits the field.
pub open spec fn encoded_filename(name: Seq<u8>) -> Option<Seq<char>> {
    if name.len() <= FILENAME_MAX_LEN {
        Some(hex_encoded(name))
    } else {
        None
    }
}

/// The value of a hex digit (either case).
pub fn decode_hex_nibble(b: u8) -> (r: Option<u8>)
    ensures
        r == hex_digit_value(b),
{
    if b >= 0x30u8 && b <= 0x39u8 {
        Some(b - 0x30u8)
    } else if b >= 0x61u8 && b <= 0x66u8 {
        Some(b - 0x61u8 + 10)
    } else if b >= 0x41u8 && b <= 0x46u8 {
        Some(b - 0x41u8 + 10)
    } else {
        None
    }
}

/// The lower-case hex digit of a value below 16 (`0` for any other).
pub fn encode_hex_nibble(n: u8) -> (c: char)
    ensures
        c == hex_digit_char(n),
{
    if n <= 9 {
        (0x30u8 + n) as char
    } else if n <= 15 {
        (0x61u8 + (n - 10)) as char
    } else {
        '0'
    }
}

/// Decodes a hex file name into the ASCII name it stands for.
pub fn decode_hex_filename(hex: &str) -> (r: Option<String>)
    ensures
        r is Some <==> decoded_filename(hex.spec_bytes()) is Some,
        r matches Some(s) ==> decoded_filename(hex.spec_bytes()) == Some(s@),
{
    let bytes = hex.as_bytes();
    let ghost h = bytes@;
    let len = bytes.len();
    if len % 2 != 0 {
        return None;
    }
    let mut out: Vec<u8> = Vec::new();
    let mut i: usize = 0;
    while i < len
        invariant
            h == hex.spec_bytes(),
            bytes@ == h,
            len == h.len(),
            len % 2 == 0,
            i % 2 == 0,
            i <= len,
            out@.len() == i / 2,
            out@.len() <= FILENAME_MAX_LEN,
            forall|j: int| 0 <= j < i ==> (#[trigger] hex_digit_value(h[j])) is Some,
            forall|k: int| 0 <= k < out@.len() ==> #[trigger] out@[k] == hex_decoded(h)[k],
            all_ascii(out@),
        decreases len - i,
    {
        let high = match decode_hex_nibble(bytes[i]) {
            Some(v) => v,
            None => {
                proof { assert(!is_hex_text(h)) by { assert(hex_digit_value(h[i as int]) is None); } }
                return None;
            },
        };
        let low = match decode_hex_nibble(bytes[i + 1]) {
            Some(v) => v,
            None => {
                proof { assert(!is_hex_text(h)) by { assert(hex_digit_value(h[i + 1]) is None); } }
                return None;
            },
        };
        assert(high < 16 && low < 16);
        let byte = (high << 4) | low;
        assert(byte == high * 16 + low) by (bit_vector)
            requires high < 16u8, low < 16u8, byte == (high << 4u8) | low;
        proof {
            assert(2 * (i as int / 2) == i);
            assert(hex_decoded(h)[i as int / 2] == byte);
        }
        if byte < 0x80 {
            if out.len() >= FILENAME_MAX_LEN {
                proof { assert(h.len() > 2 * FILENAME_MAX_LEN); }
                return None;
            }
            out.push(byte);
        } else {
            proof {
                assert(!all_ascii(hex_decoded(h)) || !is_hex_text(h)) by {
                    assert(hex_decoded(h)[i as int / 2] >= 0x80);
                }
            }
            return None;
        }
        i = i + 2;
    }
    proof {
        assert(out@ =~= hex_decoded(h));
    }
    Some(ascii_string(out))
}

/// Encodes a file name as lower-case hex, two digits per byte of its UTF-8.
pub fn encode_filename_to_hex(filename: &str) -> (r: Option<String>)
    ensures
        r is Some <==> encoded_filename(filename.spec_bytes()) is Some,
        r matches Some(s) ==> encoded_filename(filename.spec_bytes()) == Some(s@),
{
    let bytes = filename.as_bytes();
    let ghost b = bytes@;
    let mut out: Vec<char> = Vec::new();
    let mut i: usize = 0;
    while i < bytes.len()
        invariant
            b == filename.spec_bytes(),
            bytes@ == b,
            i <= b.len(),
            i <= FILENAME_MAX_LEN,
            out@.len() == 2 * i,
            forall|j: int| 0 <= j < 2 * i ==> #[trigger] out@[j] == hex_encoded(b)[j],
        decreases b.len() - i,
    {
        if i >= FILENAME_MAX_LEN {
            return None;
        }
        let byte = bytes[i];
        let high = byte >> 4;
        let low = byte & 0x0F;
        assert(high == byte / 16 && low == byte % 16) by (bit_vector)
            requires high == byte >> 4u8, low == byte & 0x0Fu8;
        out.push(encode_hex_nibble(high));
        out.push(encode_hex_nibble(low));
        proof {
            assert(hex_encoded(b)[2 * i as int] == hex_digit_char(byte / 16));
            assert(hex_encoded(b)[2 * i + 1] == hex_digit_char(byte % 16));
        }
        i = i + 1;
    }
    proof {
        assert(out@ =~= hex_encoded(b));
    }
    Some(string_from_chars(&out))
}

proof fn lemma_digit_roundtrip(n: u8)
    requires
        n < 16,
    ensures
        (hex_digit_char(n) as u32) < 0x80,
        hex_digit_value((hex_digit_char(n) as u8)) == Some(n),
{
}

/// The bytes of an encoded name are the ASCII bytes of its hex digits.
pub proof fn lemma_hex_encoded_ascii(b: Seq<u8>)
    ensures
        is_ascii_chars(hex_encoded(b)),
        exists|e: Seq<u8>|
            all_ascii(e) && ascii_chars(e) == hex_encoded(b) && #[trigger] encode_utf8(hex_encoded(b)) == e,
{
    let cs = hex_encoded(b);
    let e = Seq::new(cs.len(), |i: int| cs[i] as u8);
    assert forall|i: int| 0 <= i < cs.len() implies (#[trigger] cs[i] as u32) < 0x80 by {
        if i % 2 == 0 {
            lemma_digit_roundtrip(b[i / 2] / 16);
        } else {
            lemma_digit_roundtrip(b[i / 2] % 16);
        }
    }
    assert forall|i: int| 0 <= i < e.len() implies #[trigger] e[i] < 0x80 by {
        assert((cs[i] as u32) < 0x80);
    }
    assert(ascii_chars(e) =~= cs) by {
        assert forall|i: int| 0 <= i < cs.len() implies ascii_chars(e)[i] == cs[i] by {
            assert((cs[i] as u32) < 0x80);
            assert((cs[i] as u8) as char == cs[i]);
        }
    }
    lemma_ascii_encode(e);
}

/// Hex round trip: decoding the hex text of an ASCII file name that fits the
/// name field gives the name back.
pub proof fn law_hex_filename_roundtrip(name: Seq<u8>)
    requires
        all_ascii(name),
        name.len() <= FILENAME_MAX_LEN,
    ensures
        encoded_filename(name) is Some,
        decoded_filename(encode_utf8(encoded_filename(name)->0)) == Some(ascii_chars(name)),
{
    lemma_hex_encoded_ascii(name);
    let cs = hex_encoded(name);
    let e = choose|e: Seq<u8>| all_ascii(e) && ascii_chars(e) == cs && encode_utf8(cs) == e;
    assert(e.len() == 2 * name.len());
    assert forall|i: int| 0 <= i < e.len() implies (#[trigger] hex_digit_value(e[i])) is Some by {
        assert(ascii_chars(e)[i] == cs[i]);
        if i % 2 == 0 {
            lemma_digit_roundtrip(name[i / 2] / 16);
        } else {
            lemma_digit_roundtrip(name[i / 2] % 16);
        }
    }
    assert(hex_decoded(e) =~= name) by {
        assert forall|k: int| 0 <= k < name.len() implies hex_decoded(e)[k] == name[k] by {
            assert(ascii_chars(e)[2 * k] == cs[2 * k]);
            assert(ascii_chars(e)[2 * k + 1] == cs[2 * k + 1]);
            assert((2 * k) / 2 == k);
            assert((2 * k + 1) / 2 == k);
            assert((2 * k) % 2 == 0);
            assert((2 * k + 1) % 2 == 1);
            lemma_digit_roundtrip(name[k] / 16);
            lemma_digit_roundtrip(name[k] % 16);
        }
    }
}

} // verus!
