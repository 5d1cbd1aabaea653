//! Text helpers shared by the parsers: byte/char views and conversions.

use vstd::prelude::*;
use vstd::utf8::*;
use vstd::string::StringExecFns;

verus! {

broadcast use vstd::utf8::group_utf8_lib;

/// The characters of an ASCII byte sequence, one per byte.
pub open spec fn ascii_chars(bytes: Seq<u8>) -> Seq<char> {
    bytes.map_values(|b: u8| b as char)
}

/// Every byte is below 0x80.
pub open spec fn all_ascii(bytes: Seq<u8>) -> bool {
    forall|i: int| 0 <= i < bytes.len() ==> #[trigger] bytes[i] < 0x80
}

/// `String::from_utf8`: the bytes become a string exactly when they are valid
/// UTF-8, and the string's characters are then the decoded bytes.
#[verifier::external_body]
fn string_from_utf8(bytes: Vec<u8>) -> (r: Option<String>)
    ensures
        r is Some <==> valid_utf8(bytes@),
        r matches Some(s) ==> s@ == decode_utf8(bytes@),
{
    String::from_utf8(bytes).ok()
}

pub proof fn lemma_ascii_encode(bytes: Seq<u8>)
    requires
        all_ascii(bytes),
    ensures
        encode_utf8(ascii_chars(bytes)) == bytes,
        is_ascii_chars(ascii_chars(bytes)),
    decreases bytes.len(),
{
    let cs = ascii_chars(bytes);
    if bytes.len() > 0 {
        lemma_ascii_encode(bytes.drop_first());
        assert(cs.drop_first() =~= ascii_chars(bytes.drop_first()));
        let b = bytes[0];
        assert(b < 0x80);
        assert((b as char) as u32 == b as u32);
        assert(encode_scalar(cs[0] as u32) =~= seq![b]) by {
            assert(has_width_1_encoding(b as u32));
            assert(leading_byte_width_1(b as u32) == b) by (bit_vector)
                requires b < 0x80u8;
        }
        assert(encode_utf8(cs) =~= seq![b] + bytes.drop_first());
        assert(bytes =~= seq![b] + bytes.drop_first());
    } else {
        assert(encode_utf8(cs) =~= bytes);
    }
}

/// `String::push`: the string gains the character at its end.
#[verifier::external_body]
fn string_push(s: &mut String, c: char)
    ensures
        final(s)@ == old(s)@.push(c),
{
    s.push(c)
}

/// The string holding exactly the given characters.
pub fn string_from_chars(chars: &Vec<char>) -> (s: String)
    ensures
        s@ == chars@,
{
    let mut s = String::new();
    let mut i: usize = 0;
    while i < chars.len()
        invariant
            i <= chars@.len(),
            s@ == chars@.take(i as int),
        decreases chars@.len() - i,
    {
        string_push(&mut s, chars[i]);
        proof {
            assert(chars@.take(i + 1) =~= chars@.take(i as int).push(chars@[i as int]));
        }
        i = i + 1;
    }
    proof {
        assert(chars@.take(chars@.len() as int) =~= chars@);
    }
    s
}

/// The characters of a string slice, in order.
pub fn str_chars(s: &str) -> (chars: Vec<char>)
    ensures
        chars@ == s@,
{
    broadcast use vstd::string::axiom_spec_iter;
    let mut v: Vec<char> = Vec::new();
    for c in it: s.chars()
        invariant
            it.seq() == s@,
            v@ == it.seq().take(it.index() as int),
    {
        v.push(c);
    }
    v
}

/// Whether two string slices hold the same characters.
pub fn str_equal(a: &str, b: &str) -> (r: bool)
    ensures
        r == (a@ == b@),
{
    let ca = str_chars(a);
    let cb = str_chars(b);
    if ca.len() != cb.len() {
        return false;
    }
    let mut i: usize = 0;
    while i < ca.len()
        invariant
            ca@ == a@,
            cb@ == b@,
            ca@.len() == cb@.len(),
            i <= ca@.len(),
            forall|j: int| 0 <= j < i ==> ca@[j] == cb@[j],
        decreases ca@.len() - i,
    {
        if ca[i] != cb[i] {
            return false;
        }
        i = i + 1;
    }
    proof {
        assert(ca@ =~= cb@);
    }
    true
}

/// The Unicode `White_Space` property, which `char::is_whitespace` reports.
pub open spec fn is_white_space(c: char) -> bool {
    let u = c as u32;
    ||| 0x09 <= u <= 0x0D
    ||| u == 0x20
    ||| u == 0x85
    ||| u == 0xA0
    ||| u == 0x1680
    ||| 0x2000 <= u <= 0x200A
    ||| u == 0x2028
    ||| u == 0x2029
    ||| u == 0x202F
    ||| u == 0x205F
    ||| u == 0x3000
}

/// Whether a character has the Unicode `White_Space` property.
pub fn char_is_whitespace(c: char) -> (r: bool)
    ensures
        r == is_white_space(c),
{
    let u = c as u32;
    (0x09 <= u && u <= 0x0D) || u == 0x20 || u == 0x85 || u == 0xA0 || u == 0x1680 || (0x2000 <= u && u <= 0x200A)
        || u == 0x2028 || u == 0x2029 || u == 0x202F || u == 0x205F || u == 0x3000
}

/// Number of bytes of a character's UTF-8 encoding.
pub open spec fn utf8_width(c: char) -> nat {
    let u = c as u32;
    if u < 0x80 {
        1
    } else if u < 0x800 {
        2
    } else if u < 0x10000 {
        3
    } else {
        4
    }
}

/// Number of UTF-8 bytes of a character sequence.
pub open spec fn utf8_len(cs: Seq<char>) -> nat
    decreases cs.len(),
{
    if cs.len() == 0 {
        0
    } else {
        utf8_len(cs.drop_last()) + utf8_width(cs.last())
    }
}

/// The UTF-8 width of one character.
pub fn char_utf8_width(c: char) -> (w: usize)
    ensures
        w == utf8_width(c),
        1 <= w <= 4,
{
    let u = c as u32;
    if u < 0x80 {
        1
    } else if u < 0x800 {
        2
    } else if u < 0x10000 {
        3
    } else {
        4
    }
}

/// Decimal digits of a natural number as ASCII bytes, most significant first.
pub open spec fn decimal_digits(n: nat) -> Seq<u8>
    decreases n,
{
    if n < 10 {
        seq![(0x30 + n) as u8]
    } else {
        decimal_digits(n / 10).push((0x30 + n % 10) as u8)
    }
}

/// Decimal digits of a natural number as characters.
pub open spec fn decimal_chars(n: nat) -> Seq<char> {
    ascii_chars(decimal_digits(n))
}

pub proof fn lemma_decimal_digits_ascii(n: nat)
    ensures
        all_ascii(decimal_digits(n)),
        decimal_digits(n).len() >= 1,
    decreases n,
{
    if n >= 10 {
        lemma_decimal_digits_ascii(n / 10);
    }
}

/// The decimal digits of a number as ASCII bytes.
pub fn decimal_bytes(n: u64) -> (d: Vec<u8>)
    ensures
        d@ == decimal_digits(n as nat),
{
    let mut digits: Vec<u8> = Vec::new();
    let mut m = n;
    while m >= 10
        invariant
            decimal_digits(n as nat) == decimal_digits(m as nat) + digits@.reverse(),
        decreases m,
    {
        let d = (m % 10) as u8;
        digits.push(0x30u8 + d);
        proof {
            assert(digits@.reverse() =~= seq![(0x30 + m % 10) as u8] + digits@.drop_last().reverse());
        }
        m = m / 10;
        proof {
            assert(decimal_digits(n as nat) =~= decimal_digits(m as nat) + digits@.reverse());
        }
    }
    digits.push(0x30u8 + m as u8);
    let mut out: Vec<u8> = Vec::new();
    let mut i: usize = digits.len();
    while i > 0
        invariant
            i <= digits@.len(),
            out@ =~= digits@.subrange(i as int, digits@.len() as int).reverse(),
        decreases i,
    {
        i = i - 1;
        out.push(digits[i]);
        proof {
            assert(digits@.subrange(i as int, digits@.len() as int).reverse()
                =~= digits@.subrange(i + 1, digits@.len() as int).reverse().push(digits@[i as int]));
        }
    }
    proof {
        assert(digits@.subrange(0, digits@.len() as int) =~= digits@);
        assert(decimal_digits(m as nat) =~= seq![(0x30 + m) as u8]);
        assert(digits@.reverse() =~= seq![(0x30 + m) as u8] + digits@.drop_last().reverse());
    }
    out
}

/// The decimal text of a number.
pub fn decimal_string(n: u64) -> (s: String)
    ensures
        s@ == decimal_chars(n as nat),
{
    let d = decimal_bytes(n);
    proof {
        lemma_decimal_digits_ascii(n as nat);
    }
    ascii_string(d)
}

/// The decimal text of a signed number.
pub open spec fn signed_decimal_chars(n: int) -> Seq<char> {
    if n < 0 {
        "-"@ + decimal_chars((-n) as nat)
    } else {
        decimal_chars(n as nat)
    }
}

pub fn signed_decimal_string(n: i64) -> (s: String)
    requires
        n > i64::MIN,
    ensures
        s@ == signed_decimal_chars(n as int),
{
    if n < 0 {
        let mut s = string_of("-");
        let d = decimal_string((-n) as u64);
        push_text(&mut s, d.as_str());
        s
    } else {
        decimal_string(n as u64)
    }
}

/// A string holding the characters of a slice.
pub fn string_of(s: &str) -> (r: String)
    ensures
        r@ == s@,
{
    s.to_owned()
}

/// Appends a string slice to a string.
pub fn push_text(s: &mut String, t: &str)
    ensures
        final(s)@ == old(s)@ + t@,
{
    s.append(t)
}

/// A vector holding a copy of a byte slice.
pub fn bytes_to_vec(b: &[u8]) -> (v: Vec<u8>)
    ensures
        v@ == b@,
{
    let mut v: Vec<u8> = Vec::new();
    let mut i: usize = 0;
    while i < b.len()
        invariant
            i <= b@.len(),
            v@ == b@.take(i as int),
        decreases b@.len() - i,
    {
        v.push(b[i]);
        i = i + 1;
        proof {
            assert(v@ =~= b@.take(i as int));
        }
    }
    proof {
        assert(b@.take(b@.len() as int) =~= b@);
    }
    v
}

/// `n` spaces.
pub open spec fn spaces(n: nat) -> Seq<char> {
    Seq::new(n, |i: int| ' ')
}

/// A text left-aligned in a field of `width` characters, as `{:<width}` formats it.
pub open spec fn pad_right(t: Seq<char>, width: nat) -> Seq<char> {
    if t.len() >= width {
        t
    } else {
        t + spaces((width - t.len()) as nat)
    }
}

/// Appends `t` left-aligned in a field of `width` characters.
pub fn push_padded(s: &mut String, t: &str, width: usize)
    ensures
        final(s)@ == old(s)@ + pad_right(t@, width as nat),
{
    let n = str_chars(t).len();
    s.append(t);
    let mut k = n;
    let ghost start = s@;
    while k < width
        invariant
            n == t@.len(),
            n <= k,
            k <= width || n >= width,
            n >= width ==> k == n,
            start == old(s)@ + t@,
            s@ == start + spaces((k - n) as nat),
        decreases width - k,
    {
        s.append(" ");
        proof {
            reveal_strlit(" ");
            assert(spaces((k + 1 - n) as nat) =~= spaces((k - n) as nat) + " "@);
        }
        k = k + 1;
    }
    proof {
        if n < width {
            assert(k == width);
            assert(pad_right(t@, width as nat) == t@ + spaces((width - n) as nat));
            assert(s@ =~= old(s)@ + (t@ + spaces((width - n) as nat)));
        } else {
            assert(k == n);
            assert(spaces(0) =~= Seq::<char>::empty());
            assert(pad_right(t@, width as nat) == t@);
            assert(s@ =~= old(s)@ + t@);
        }
    }
}

/// `core::str::from_utf8`: a string slice over the bytes exactly when they are
/// valid UTF-8, holding the characters they encode.
#[verifier::external_body]
pub(crate) fn str_from_utf8(bytes: &[u8]) -> (r: Option<&str>)
    ensures
        r is Some <==> valid_utf8(bytes@),
        r matches Some(s) ==> s@ == decode_utf8(bytes@),
{
    core::str::from_utf8(bytes).ok()
}

/// Builds a string from ASCII bytes, one character per byte.
pub fn ascii_string(bytes: Vec<u8>) -> (s: String)
    requires
        all_ascii(bytes@),
    ensures
        s@ == ascii_chars(bytes@),
{
    proof {
        lemma_ascii_encode(bytes@);
        encode_utf8_valid_utf8(ascii_chars(bytes@));
        encode_utf8_decode_utf8(ascii_chars(bytes@));
    }
    let ghost b = bytes@;
    match string_from_utf8(bytes) {
        Some(s) => s,
        None => {
            proof { assert(false); }
            String::new()
        },
    }
}

} // verus!
