//! Searching and slicing character sequences, and reading decimal numbers, as
//! the protocol parsers need them.

use vstd::prelude::*;
use crate::text::is_white_space;

verus! {

/// `p` occurs in `h` starting at index `i`.
pub open spec fn occurs_at(h: Seq<char>, p: Seq<char>, i: int) -> bool {
    0 <= i && i + p.len() <= h.len() && h.subrange(i, i + p.len()) == p
}

/// `i` is the first index where `p` occurs in `h`.
pub open spec fn is_first_at(h: Seq<char>, p: Seq<char>, i: int) -> bool {
    occurs_at(h, p, i) && forall|j: int| 0 <= j < i ==> !#[trigger] occurs_at(h, p, j)
}

/// Where `p` first occurs in `h`, as `str::find` reports it.
#[verifier::opaque]
pub open spec fn find_first(h: Seq<char>, p: Seq<char>) -> Option<int> {
    if exists|i: int| is_first_at(h, p, i) {
        Some(choose|i: int| is_first_at(h, p, i))
    } else {
        None
    }
}

/// `p` occurs somewhere in `h`, as `str::contains` reports it.
pub open spec fn contains_seq(h: Seq<char>, p: Seq<char>) -> bool {
    exists|i: int| occurs_at(h, p, i)
}

proof fn lemma_first_unique(h: Seq<char>, p: Seq<char>, i: int, j: int)
    requires
        is_first_at(h, p, i),
        is_first_at(h, p, j),
    ensures
        i == j,
{
    if i < j {
        assert(!occurs_at(h, p, i));
    } else if j < i {
        assert(!occurs_at(h, p, j));
    }
}

/// What `find_first` reports: the first occurrence, or that there is none.
pub proof fn lemma_find_first_spec(h: Seq<char>, p: Seq<char>)
    ensures
        find_first(h, p) matches Some(i) ==> is_first_at(h, p, i),
        find_first(h, p) is None ==> forall|i: int| !#[trigger] occurs_at(h, p, i),
{
    reveal(find_first);
    if find_first(h, p) is None {
        assert forall|i: int| !#[trigger] occurs_at(h, p, i) by {
            if occurs_at(h, p, i) {
                lemma_find_first_some(h, p, i);
            }
        }
    }
}

/// The first occurrence exists whenever an occurrence does.
pub proof fn lemma_find_first_some(h: Seq<char>, p: Seq<char>, k: int)
    requires
        occurs_at(h, p, k),
    ensures
        find_first(h, p) is Some,
        find_first(h, p)->0 <= k,
    decreases k,
{
    reveal(find_first);
    if exists|j: int| 0 <= j < k && occurs_at(h, p, j) {
        let j = choose|j: int| 0 <= j < k && occurs_at(h, p, j);
        lemma_find_first_some(h, p, j);
    } else {
        assert(is_first_at(h, p, k));
        let c = choose|i: int| is_first_at(h, p, i);
        lemma_first_unique(h, p, c, k);
    }
}

/// Finds where `p` first occurs in `h` at or after `start`, as an index
/// relative to `start`.
pub fn find_from(h: &Vec<char>, start: usize, p: &Vec<char>) -> (r: Option<usize>)
    requires
        start <= h@.len(),
    ensures
        r is None <==> find_first(h@.skip(start as int), p@) is None,
        r matches Some(i) ==> find_first(h@.skip(start as int), p@) == Some(i as int),
{
    reveal(find_first);
    let ghost s = h@.skip(start as int);
    if p.len() > h.len() - start {
        proof {
            assert forall|i: int| !occurs_at(s, p@, i) by {}
            assert(!exists|i: int| is_first_at(s, p@, i));
        }
        return None;
    }
    let last = h.len() - start - p.len();
    let mut i: usize = 0;
    while i <= last
        invariant
            start <= h@.len(),
            s == h@.skip(start as int),
            last == s.len() - p@.len(),
            p@.len() <= s.len(),
            h@.len() == start + s.len(),
            h@.len() <= usize::MAX,
            i <= last + 1,
            forall|j: int| 0 <= j < i ==> !#[trigger] occurs_at(s, p@, j),
        decreases last + 1 - i,
    {
        let mut k: usize = 0;
        let mut same = true;
        proof {
            assert(s.subrange(i as int, i as int) =~= p@.take(0));
        }
        while k < p.len() && same
            invariant
                start <= h@.len(),
                s == h@.skip(start as int),
                h@.len() == start + s.len(),
                h@.len() <= usize::MAX,
                p@.len() <= s.len(),
                i <= last,
                last == s.len() - p@.len(),
                k <= p@.len(),
                same ==> (s.subrange(i as int, i + k) == p@.take(k as int)),
                !same ==> s.subrange(i as int, i + p@.len()) != p@,
            decreases p@.len() - k + (if same { 1int } else { 0int }),
        {
            assert(start + i + k < h@.len());
            let c = h[start + i + k];
            assert(c == s[i + k]);
            if c != p[k] {
                proof {
                    assert(s.subrange(i as int, i + p@.len())[k as int] != p@[k as int]);
                    assert(s.subrange(i as int, i + p@.len()) != p@);
                }
                same = false;
            } else {
                proof {
                    assert(s.subrange(i as int, i + k + 1) =~= p@.take(k + 1));
                }
                k = k + 1;
            }
        }
        proof {
            if k == p@.len() {
                assert(p@.take(k as int) =~= p@);
            }
        }
        if same && k == p.len() {
            proof {
                reveal(find_first);
                assert(occurs_at(s, p@, i as int));
                assert(is_first_at(s, p@, i as int));
                let c = choose|c: int| is_first_at(s, p@, c);
                lemma_first_unique(s, p@, c, i as int);
            }
            return Some(i);
        }
        proof {
            if same {
                assert(k == p@.len());
                assert(p@.take(k as int) =~= p@);
            }
            assert(!occurs_at(s, p@, i as int));
        }
        i = i + 1;
    }
    proof {
        assert forall|j: int| !occurs_at(s, p@, j) by {
            if 0 <= j < i {
            }
        }
        assert(!exists|j: int| is_first_at(s, p@, j));
    }
    None
}

/// A vector holding `v[a..b]`.
pub fn sub_vec(v: &Vec<char>, a: usize, b: usize) -> (r: Vec<char>)
    requires
        a <= b <= v@.len(),
    ensures
        r@ == v@.subrange(a as int, b as int),
{
    let mut r: Vec<char> = Vec::new();
    let mut i = a;
    while i < b
        invariant
            a <= i <= b,
            b <= v@.len(),
            r@ == v@.subrange(a as int, i as int),
        decreases b - i,
    {
        r.push(v[i]);
        i = i + 1;
        proof {
            assert(r@ =~= v@.subrange(a as int, i as int));
        }
    }
    r
}

/// A sequence without its leading and trailing white space, as `str::trim` gives it.
pub open spec fn trim_chars(s: Seq<char>) -> Seq<char>
    decreases s.len(),
{
    if s.len() > 0 && is_white_space(s[0]) {
        trim_chars(s.drop_first())
    } else if s.len() > 0 && is_white_space(s.last()) {
        trim_chars(s.drop_last())
    } else {
        s
    }
}

/// A sequence without its leading white space, as `str::trim_start` gives it.
pub open spec fn trim_start_chars(s: Seq<char>) -> Seq<char>
    decreases s.len(),
{
    if s.len() > 0 && is_white_space(s[0]) {
        trim_start_chars(s.drop_first())
    } else {
        s
    }
}

/// Trims white space from both ends.
pub fn trim(v: &Vec<char>) -> (r: Vec<char>)
    ensures
        r@ == trim_chars(v@),
{
    let mut a: usize = 0;
    let mut b: usize = v.len();
    proof {
        assert(v@.subrange(0, v@.len() as int) =~= v@);
    }
    while a < b && crate::text::char_is_whitespace(v[a])
        invariant
            a <= b <= v@.len(),
            trim_chars(v@.subrange(a as int, b as int)) == trim_chars(v@),
        decreases b - a,
    {
        proof {
            assert(v@.subrange(a as int, b as int).drop_first() =~= v@.subrange(a + 1, b as int));
        }
        a = a + 1;
    }
    while a < b && crate::text::char_is_whitespace(v[b - 1])
        invariant
            a <= b <= v@.len(),
            trim_chars(v@.subrange(a as int, b as int)) == trim_chars(v@),
            a < b ==> !is_white_space(v@[a as int]),
        decreases b - a,
    {
        proof {
            assert(v@.subrange(a as int, b as int).drop_last() =~= v@.subrange(a as int, b - 1));
        }
        b = b - 1;
    }
    proof {
        let t = v@.subrange(a as int, b as int);
        if t.len() > 0 {
            assert(!is_white_space(t[0]));
            assert(!is_white_space(t.last()));
        }
    }
    sub_vec(v, a, b)
}

/// Trims white space from the start.
pub fn trim_start(v: &Vec<char>) -> (r: Vec<char>)
    ensures
        r@ == trim_start_chars(v@),
{
    let mut a: usize = 0;
    proof {
        assert(v@.subrange(0, v@.len() as int) =~= v@);
    }
    while a < v.len() && crate::text::char_is_whitespace(v[a])
        invariant
            a <= v@.len(),
            trim_start_chars(v@.subrange(a as int, v@.len() as int)) == trim_start_chars(v@),
        decreases v@.len() - a,
    {
        proof {
            assert(v@.subrange(a as int, v@.len() as int).drop_first() =~= v@.subrange(a + 1, v@.len() as int));
        }
        a = a + 1;
    }
    sub_vec(v, a, v.len())
}

pub open spec fn is_digit_char(c: char) -> bool {
    '0' <= c <= '9'
}

pub open spec fn digit_value(c: char) -> nat {
    (c as u32 - '0' as u32) as nat
}

/// The value of a sequence of decimal digits.
pub open spec fn digits_value(s: Seq<char>) -> nat
    decreases s.len(),
{
    if s.len() == 0 {
        0
    } else {
        digits_value(s.drop_last()) * 10 + digit_value(s.last())
    }
}

pub open spec fn all_digits(s: Seq<char>) -> bool {
    forall|i: int| 0 <= i < s.len() ==> is_digit_char(#[trigger] s[i])
}

/// The number a text stands for, as the standard parsing of an unsigned
/// integer reads it: an optional `+` followed by at least one decimal digit.
pub open spec fn parse_unsigned(s: Seq<char>) -> Option<nat> {
    let digits = if s.len() > 0 && s[0] == '+' { s.drop_first() } else { s };
    if digits.len() > 0 && all_digits(digits) {
        Some(digits_value(digits))
    } else {
        None
    }
}

/// `u32::from_str`: the number, when the text is one and fits in 32 bits.
pub fn parse_u32(s: &Vec<char>) -> (r: Option<u32>)
    ensures
        match parse_unsigned(s@) {
            Some(n) => if n <= u32::MAX { r == Some(n as u32) } else { r is None },
            None => r is None,
        },
{
    match parse_bounded(s, u32::MAX as u64) {
        Some(n) => Some(n as u32),
        None => None,
    }
}

/// `u8::from_str`: the number, when the text is one and fits in 8 bits.
pub fn parse_u8(s: &Vec<char>) -> (r: Option<u8>)
    ensures
        match parse_unsigned(s@) {
            Some(n) => if n <= u8::MAX { r == Some(n as u8) } else { r is None },
            None => r is None,
        },
{
    match parse_bounded(s, u8::MAX as u64) {
        Some(n) => Some(n as u8),
        None => None,
    }
}

/// `usize::from_str`: the number, when the text is one and fits in a `usize`.
pub fn parse_usize(s: &Vec<char>) -> (r: Option<usize>)
    ensures
        match parse_unsigned(s@) {
            Some(n) => if n <= usize::MAX { r == Some(n as usize) } else { r is None },
            None => r is None,
        },
{
    match parse_bounded(s, usize::MAX as u64) {
        Some(n) => Some(n as usize),
        None => None,
    }
}

/// The number a text stands for, when it is one and at most `max`.
fn parse_bounded(s: &Vec<char>, max: u64) -> (r: Option<u64>)
    ensures
        match parse_unsigned(s@) {
            Some(n) => if n <= max { r == Some(n as u64) } else { r is None },
            None => r is None,
        },
{
    let start: usize = if s.len() > 0 && s[0] == '+' { 1 } else { 0 };
    let ghost digits = if s@.len() > 0 && s@[0] == '+' { s@.drop_first() } else { s@ };
    proof {
        assert(digits =~= s@.skip(start as int));
    }
    if start >= s.len() {
        proof {
            assert(digits.len() == 0);
            assert(parse_unsigned(s@) is None);
        }
        return None;
    }
    let mut value: u64 = 0;
    let mut i = start;
    while i < s.len()
        invariant
            start <= i <= s@.len(),
            start < s@.len(),
            digits == s@.skip(start as int),
            digits == (if s@.len() > 0 && s@[0] == '+' { s@.drop_first() } else { s@ }),
            all_digits(s@.subrange(start as int, i as int)),
            value == digits_value(s@.subrange(start as int, i as int)),
            value <= max,
        decreases s@.len() - i,
    {
        let c = s[i];
        if !(c >= '0' && c <= '9') {
            proof {
                assert(digits[i - start] == c);
                assert(!is_digit_char(digits[i - start]));
                assert(!all_digits(digits));
                assert(parse_unsigned(s@) is None);
            }
            return None;
        }
        let d = (c as u32 - '0' as u32) as u64;
        proof {
            assert(s@.subrange(start as int, i + 1).drop_last() =~= s@.subrange(start as int, i as int));
            assert(s@.subrange(start as int, i + 1).last() == c);
        }
        if d > max || value > (max - d) / 10 {
            proof {
                if d <= max {
                    assert(value * 10 + d > max) by (nonlinear_arith)
                        requires value > (max - d) / 10, d <= 9, d <= max;
                }
            }
            proof {
                assert(digits.take((i + 1 - start) as int) =~= s@.subrange(start as int, i + 1));
                if all_digits(digits) {
                    lemma_digits_value_mono(digits, (i + 1 - start) as nat);
                    assert(digits_value(digits) > max);
                }
            }
            return None;
        }
        assert(value * 10 + d <= max) by (nonlinear_arith)
            requires value <= (max - d) / 10, d <= 9, d <= max;
        value = value * 10 + d;
        i = i + 1;
        proof {
            assert forall|j: int| 0 <= j < s@.subrange(start as int, i as int).len() implies is_digit_char(
                #[trigger] s@.subrange(start as int, i as int)[j],
            ) by {
                if j < i - 1 - start {
                    assert(s@.subrange(start as int, i as int)[j] == s@.subrange(start as int, i - 1)[j]);
                }
            }
        }
    }
    proof {
        assert(s@.subrange(start as int, s@.len() as int) =~= digits);
    }
    Some(value)
}

/// The value of a digit prefix never exceeds the value of the whole digits.
proof fn lemma_digits_value_mono(s: Seq<char>, k: nat)
    requires
        k <= s.len(),
        all_digits(s),
    ensures
        digits_value(s.take(k as int)) <= digits_value(s),
    decreases s.len(),
{
    if k < s.len() {
        assert(s.drop_last().take(k as int) =~= s.take(k as int));
        assert forall|i: int| 0 <= i < s.drop_last().len() implies is_digit_char(#[trigger] s.drop_last()[i]) by {
            assert(s.drop_last()[i] == s[i]);
        }
        lemma_digits_value_mono(s.drop_last(), k);
    } else {
        assert(s.take(k as int) =~= s);
    }
}

} // verus!
