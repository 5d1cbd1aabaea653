//! Reading values out of the display's JSON-like replies by scanning for keys,
//! without a full JSON parser: numbers and quoted strings that follow a key,
//! the quoted file names of the `/DCIM` listing, and the play state.

use vstd::prelude::*;
use crate::scan::{
    contains_seq, find_first, find_from, is_digit_char, lemma_find_first_spec, occurs_at, parse_u32,
    parse_unsigned, parse_usize, sub_vec, trim, trim_chars,
};
use crate::text::{char_utf8_width, str_chars, string_from_chars, utf8_len};

verus! {

/// `char::is_ascii_whitespace`: space, tab, line feed, form feed, carriage return.
pub open spec fn is_ascii_ws(c: char) -> bool {
    c == ' ' || c == '\t' || c == '\n' || c == '\x0C' || c == '\r'
}

/// Index of the first character that is neither ASCII white space nor a digit.
pub open spec fn first_non_number(v: Seq<char>) -> Option<int>
    decreases v.len(),
{
    if v.len() == 0 {
        None
    } else if !(is_ascii_ws(v[0]) || is_digit_char(v[0])) {
        Some(0)
    } else {
        match first_non_number(v.drop_first()) {
            Some(i) => Some(i + 1),
            None => None,
        }
    }
}

/// The number at the start of `v`: the white space and digits up to the first
/// other character (which must exist and not be first), trimmed and read as a
/// 32-bit unsigned number.
pub open spec fn number_at(v: Seq<char>) -> Option<u32> {
    match first_non_number(v) {
        Some(i) => if i > 0 {
            match parse_unsigned(trim_chars(v.take(i))) {
                Some(n) => if n <= u32::MAX { Some(n as u32) } else { None },
                None => None,
            }
        } else {
            None
        },
        None => None,
    }
}

/// The number that follows `key` in `body`: after the next `"value":` when the
/// rest holds one, else after the next `:`.
pub open spec fn json_int_value(body: Seq<char>, key: Seq<char>) -> Option<u32> {
    match find_first(body, key) {
        None => None,
        Some(k) => {
            let sub = body.skip(k);
            match find_first(sub, "\"value\":"@) {
                Some(v) => number_at(sub.skip(v + 8)),
                None => match find_first(sub, ":"@) {
                    Some(c) => number_at(sub.skip(c + 1)),
                    None => None,
                },
            }
        },
    }
}

/// The text between the first two `"` of `v`.
pub open spec fn quoted_after(v: Seq<char>) -> Option<Seq<char>> {
    match find_first(v, "\""@) {
        None => None,
        Some(q1) => match find_first(v.skip(q1 + 1), "\""@) {
            None => None,
            Some(q2) => Some(v.subrange(q1 + 1, q1 + 1 + q2)),
        },
    }
}

/// A text, when its UTF-8 fits in `cap` bytes.
pub open spec fn fitting(s: Seq<char>, cap: nat) -> Option<Seq<char>> {
    if utf8_len(s) <= cap {
        Some(s)
    } else {
        None
    }
}

/// The quoted string after the next `"value":` that follows `key`.
pub open spec fn json_str_value(body: Seq<char>, key: Seq<char>, cap: nat) -> Option<Seq<char>> {
    match find_first(body, key) {
        None => None,
        Some(k) => {
            let sub = body.skip(k);
            match find_first(sub, "\"value\":"@) {
                None => None,
                Some(v) => match quoted_after(sub.skip(v + 8)) {
                    Some(s) => fitting(s, cap),
                    None => None,
                },
            }
        },
    }
}

/// The quoted string after the next `:` that follows `key`.
pub open spec fn json_flat_str_value(body: Seq<char>, key: Seq<char>, cap: nat) -> Option<Seq<char>> {
    match find_first(body, key) {
        None => None,
        Some(k) => {
            let sub = body.skip(k);
            match find_first(sub, ":"@) {
                None => None,
                Some(c) => match quoted_after(sub.skip(c + 1)) {
                    Some(s) => fitting(s, cap),
                    None => None,
                },
            }
        },
    }
}

fn pattern(p: &str) -> (v: Vec<char>)
    ensures
        v@ == p@,
{
    str_chars(p)
}

/// Whether a character sequence fits in `cap` bytes of UTF-8.
pub fn fits_utf8(v: &Vec<char>, cap: usize) -> (r: bool)
    ensures
        r == (utf8_len(v@) <= cap),
{
    let mut total: usize = 0;
    let mut i: usize = 0;
    while i < v.len()
        invariant
            i <= v@.len(),
            total == utf8_len(v@.take(i as int)),
            total <= cap,
        decreases v@.len() - i,
    {
        let w = char_utf8_width(v[i]);
        proof {
            assert(v@.take(i + 1).drop_last() =~= v@.take(i as int));
        }
        if w > cap - total {
            proof {
                lemma_utf8_len_prefix(v@, (i + 1) as nat);
            }
            return false;
        }
        total = total + w;
        i = i + 1;
    }
    proof {
        assert(v@.take(v@.len() as int) =~= v@);
    }
    true
}

/// The UTF-8 length of a prefix never exceeds that of the whole.
pub proof fn lemma_utf8_len_prefix(s: Seq<char>, k: nat)
    requires
        k <= s.len(),
    ensures
        utf8_len(s.take(k as int)) <= utf8_len(s),
    decreases s.len(),
{
    if k < s.len() {
        assert(s.drop_last().take(k as int) =~= s.take(k as int));
        lemma_utf8_len_prefix(s.drop_last(), k);
    } else {
        assert(s.take(k as int) =~= s);
    }
}

fn is_ascii_ws_exec(c: char) -> (r: bool)
    ensures
        r == is_ascii_ws(c),
{
    c == ' ' || c == '\t' || c == '\n' || c == '\x0C' || c == '\r'
}

/// Reads the number at `v[start..]`.
fn number_at_exec(v: &Vec<char>, start: usize) -> (r: Option<u32>)
    requires
        start <= v@.len(),
    ensures
        r == number_at(v@.skip(start as int)),
{
    let ghost s = v@.skip(start as int);
    let mut i = start;
    while i < v.len() && (is_ascii_ws_exec(v[i]) || (v[i] >= '0' && v[i] <= '9'))
        invariant
            start <= i <= v@.len(),
            s == v@.skip(start as int),
            first_non_number(s) == (match first_non_number(v@.skip(i as int)) {
                Some(j) => Some(j + (i - start)),
                None => None::<int>,
            }),
        decreases v@.len() - i,
    {
        proof {
            assert(v@.skip(i as int).drop_first() =~= v@.skip(i + 1));
        }
        i = i + 1;
    }
    if i >= v.len() {
        proof {
            assert(v@.skip(i as int).len() == 0);
        }
        return None;
    }
    proof {
        assert(v@.skip(i as int)[0] == v@[i as int]);
        assert(first_non_number(v@.skip(i as int)) == Some(0int));
    }
    if i == start {
        return None;
    }
    let digits = sub_vec(v, start, i);
    let t = trim(&digits);
    proof {
        assert(digits@ =~= s.take(i - start));
    }
    parse_u32(&t)
}

/// Finds `p` in `v` at or after `start`, as an absolute index.
fn find_abs(v: &Vec<char>, start: usize, p: &Vec<char>) -> (r: Option<usize>)
    requires
        start <= v@.len(),
    ensures
        r is None <==> find_first(v@.skip(start as int), p@) is None,
        r matches Some(k) ==> {
            &&& start <= k
            &&& k + p@.len() <= v@.len()
            &&& find_first(v@.skip(start as int), p@) == Some(k - start)
        },
{
    let n = v.len();
    match find_from(v, start, p) {
        Some(i) => {
            proof {
                let s = v@.skip(start as int);
                lemma_find_first_spec(s, p@);
                assert(occurs_at(s, p@, i as int));
                assert(start + i <= n);
            }
            Some(start + i)
        },
        None => None,
    }
}

/// The range of the text between the first two `"` of `v[start..]`.
fn quoted_range(v: &Vec<char>, start: usize) -> (r: Option<(usize, usize)>)
    requires
        start <= v@.len(),
    ensures
        match quoted_after(v@.skip(start as int)) {
            Some(q) => r matches Some((a, b)) && a <= b <= v@.len() && v@.subrange(a as int, b as int) == q,
            None => r is None,
        },
{
    let n = v.len();
    let quote = pattern("\"");
    proof {
        reveal_strlit("\"");
    }
    let q1 = match find_abs(v, start, &quote) {
        Some(q) => q,
        None => return None,
    };
    assert(q1 + 1 <= n);
    let q2 = match find_abs(v, q1 + 1, &quote) {
        Some(q) => q,
        None => {
            proof {
                assert(v@.skip(start as int).skip(q1 - start + 1) =~= v@.skip(q1 + 1));
            }
            return None;
        },
    };
    proof {
        assert(v@.skip(start as int).skip(q1 - start + 1) =~= v@.skip(q1 + 1));
        assert(v@.skip(start as int).subrange(q1 - start + 1, q2 - start) =~= v@.subrange(q1 + 1, q2 as int));
    }
    Some((q1 + 1, q2))
}

/// The number that follows `key` in `body`.
pub fn find_json_int_value(body: &str, key: &str) -> (r: Option<u32>)
    ensures
        r == json_int_value(body@, key@),
{
    let v = str_chars(body);
    let n = v.len();
    let k = str_chars(key);
    proof {
        assert(v@.skip(0) =~= v@);
    }
    let key_idx = match find_abs(&v, 0, &k) {
        Some(i) => i,
        None => return None,
    };
    let ghost sub = v@.skip(key_idx as int);
    let value_pat = pattern("\"value\":");
    proof {
        reveal_strlit("\"value\":");
        reveal_strlit(":");
    }
    match find_abs(&v, key_idx, &value_pat) {
        Some(val_idx) => {
            proof {
                assert(sub.skip(val_idx - key_idx + 8) =~= v@.skip(val_idx + 8));
            }
            assert(val_idx + 8 <= n);
            number_at_exec(&v, val_idx + 8)
        },
        None => {
            let colon = pattern(":");
            match find_abs(&v, key_idx, &colon) {
                Some(col_idx) => {
                    proof {
                        assert(sub.skip(col_idx - key_idx + 1) =~= v@.skip(col_idx + 1));
                    }
                    assert(col_idx + 1 <= n);
                    number_at_exec(&v, col_idx + 1)
                },
                None => None,
            }
        },
    }
}

fn quoted_value_after(v: &Vec<char>, start: usize, cap: usize) -> (r: Option<String>)
    requires
        start <= v@.len(),
    ensures
        match (r, quoted_after(v@.skip(start as int))) {
            (Some(s), Some(q)) => fitting(q, cap as nat) == Some(s@),
            (None, Some(q)) => fitting(q, cap as nat) is None,
            (None, None) => true,
            _ => false,
        },
{
    match quoted_range(v, start) {
        Some((a, b)) => {
            let s = sub_vec(v, a, b);
            if fits_utf8(&s, cap) {
                Some(string_from_chars(&s))
            } else {
                None
            }
        },
        None => None,
    }
}

/// The quoted string after the next `"value":` that follows `key`, when it
/// fits in `cap` bytes.
pub fn find_json_str_value(body: &str, key: &str, cap: usize) -> (r: Option<String>)
    ensures
        match json_str_value(body@, key@, cap as nat) {
            Some(s) => r matches Some(t) && t@ == s,
            None => r is None,
        },
{
    let v = str_chars(body);
    let n = v.len();
    let k = str_chars(key);
    proof {
        assert(v@.skip(0) =~= v@);
        reveal_strlit("\"value\":");
    }
    let key_idx = match find_abs(&v, 0, &k) {
        Some(i) => i,
        None => return None,
    };
    let ghost sub = v@.skip(key_idx as int);
    let value_pat = pattern("\"value\":");
    match find_abs(&v, key_idx, &value_pat) {
        Some(val_idx) => {
            proof {
                assert(sub.skip(val_idx - key_idx + 8) =~= v@.skip(val_idx + 8));
            }
            assert(val_idx + 8 <= n);
            quoted_value_after(&v, val_idx + 8, cap)
        },
        None => None,
    }
}

/// The quoted string after the next `:` that follows `key`, when it fits in
/// `cap` bytes.
pub fn find_json_flat_str_value(body: &str, key: &str, cap: usize) -> (r: Option<String>)
    ensures
        match json_flat_str_value(body@, key@, cap as nat) {
            Some(s) => r matches Some(t) && t@ == s,
            None => r is None,
        },
{
    let v = str_chars(body);
    let n = v.len();
    let k = str_chars(key);
    proof {
        assert(v@.skip(0) =~= v@);
        reveal_strlit(":");
    }
    let key_idx = match find_abs(&v, 0, &k) {
        Some(i) => i,
        None => return None,
    };
    let ghost sub = v@.skip(key_idx as int);
    let colon = pattern(":");
    match find_abs(&v, key_idx, &colon) {
        Some(col_idx) => {
            proof {
                assert(sub.skip(col_idx - key_idx + 1) =~= v@.skip(col_idx + 1));
            }
            assert(col_idx + 1 <= n);
            quoted_value_after(&v, col_idx + 1, cap)
        },
        None => None,
    }
}

} // verus!

verus! {

/// Longest file name, in bytes, that the display status keeps.
pub const DISPLAY_FILE_NAME_CAP: usize = 64;

/// Most file names that the display status keeps.
pub const DISPLAY_MAX_FILES: usize = 16;

/// The quoted strings of `s`, in order: each from a `"` to the next `"`.
pub open spec fn quoted_items(s: Seq<char>) -> Seq<Seq<char>>
    decreases s.len(),
{
    match find_first(s, "\""@) {
        None => Seq::empty(),
        Some(q1) => {
            let rem = s.skip(q1 + 1);
            match find_first(rem, "\""@) {
                None => Seq::empty(),
                Some(q2) => {
                    proof {
                        reveal_strlit("\"");
                        lemma_find_first_spec(s, "\""@);
                        lemma_find_first_spec(rem, "\""@);
                    }
                    seq![rem.take(q2)] + quoted_items(rem.skip(q2 + 1))
                },
            }
        },
    }
}

/// A listed file name that the status keeps: non-empty and fitting its field.
pub open spec fn file_name_kept(f: Seq<char>) -> bool {
    f.len() > 0 && utf8_len(f) <= DISPLAY_FILE_NAME_CAP
}

/// The names kept from a list, in order, until the list of files is full.
pub open spec fn kept_files(items: Seq<Seq<char>>) -> Seq<Seq<char>>
    decreases items.len(),
{
    if items.len() == 0 {
        Seq::empty()
    } else {
        let k = kept_files(items.drop_last());
        if file_name_kept(items.last()) && k.len() < DISPLAY_MAX_FILES {
            k.push(items.last())
        } else {
            k
        }
    }
}

/// The file names of a `/DCIM` reply: the quoted strings between the first `[`
/// and the `]` after it.
pub open spec fn dcim_files(body: Seq<char>) -> Seq<Seq<char>> {
    match find_first(body, "["@) {
        None => Seq::empty(),
        Some(a) => match find_first(body.skip(a), "]"@) {
            None => Seq::empty(),
            Some(e) => kept_files(quoted_items(body.subrange(a + 1, a + e))),
        },
    }
}

proof fn lemma_kept_files_len(items: Seq<Seq<char>>)
    ensures
        kept_files(items).len() <= DISPLAY_MAX_FILES,
    decreases items.len(),
{
    if items.len() > 0 {
        lemma_kept_files_len(items.drop_last());
    }
}

/// The file names listed in a `/DCIM` reply.
pub fn parse_dcim_files(body: &str) -> (files: Vec<String>)
    ensures
        files@.map_values(|f: String| f@) == dcim_files(body@),
{
    let v = str_chars(body);
    let n = v.len();
    let open = pattern("[");
    let close = pattern("]");
    let quote = pattern("\"");
    proof {
        reveal_strlit("[");
        reveal_strlit("]");
        reveal_strlit("\"");
        assert(v@.skip(0) =~= v@);
    }
    let mut files: Vec<String> = Vec::new();
    let a = match find_abs(&v, 0, &open) {
        Some(a) => a,
        None => {
            proof {
                assert(files@.map_values(|f: String| f@) =~= Seq::<Seq<char>>::empty());
            }
            return files;
        },
    };
    let e = match find_abs(&v, a, &close) {
        Some(e) => e,
        None => {
            proof {
                assert(files@.map_values(|f: String| f@) =~= Seq::<Seq<char>>::empty());
            }
            return files;
        },
    };
    proof {
        lemma_find_first_spec(v@.skip(a as int), "]"@);
        lemma_find_first_spec(v@.skip(0), "["@);
        assert(v@.subrange(a as int, a + 1) == "["@);
        assert(v@.subrange(a as int, a + 1)[0] == v@[a as int]);
        assert(v@[a as int] == '[');
        if e == a {
            assert(v@.skip(a as int).subrange(0, 1) == "]"@);
            assert(v@.skip(a as int).subrange(0, 1)[0] == v@[a as int]);
            assert(false);
        }
    }
    let content = sub_vec(&v, a + 1, e);
    let ghost c = content@;
    let mut pos: usize = 0;
    let ghost mut done: Seq<Seq<char>> = Seq::empty();
    proof {
        assert(c.skip(0) =~= c);
        assert(done + quoted_items(c) =~= quoted_items(c));
    }
    loop
        invariant
            pos <= c.len(),
            content@ == c,
            quoted_items(c) == done + quoted_items(c.skip(pos as int)),
            files@.map_values(|f: String| f@) == kept_files(done),
            quote@ == "\""@,
        ensures
            quoted_items(c) == done,
            files@.map_values(|f: String| f@) == kept_files(done),
        decreases c.len() - pos,
    {
        proof {
            reveal_strlit("\"");
        }
        if pos >= content.len() {
            proof {
                assert(c.skip(pos as int) =~= Seq::<char>::empty());
                lemma_find_first_spec(c.skip(pos as int), "\""@);
                assert(quoted_items(c.skip(pos as int)) =~= Seq::<Seq<char>>::empty());
                assert(done + Seq::<Seq<char>>::empty() =~= done);
            }
            break;
        }
        let nc = content.len();
        let q1 = match find_abs(&content, pos, &quote) {
            Some(q) => q,
            None => {
                proof {
                    assert(quoted_items(c.skip(pos as int)) =~= Seq::<Seq<char>>::empty());
                    assert(done + Seq::<Seq<char>>::empty() =~= done);
                }
                break;
            },
        };
        assert(q1 + 1 <= nc);
        let q2 = match find_abs(&content, q1 + 1, &quote) {
            Some(q) => q,
            None => {
                proof {
                    assert(c.skip(pos as int).skip(q1 - pos + 1) =~= c.skip(q1 + 1));
                    assert(quoted_items(c.skip(pos as int)) =~= Seq::<Seq<char>>::empty());
                    assert(done + Seq::<Seq<char>>::empty() =~= done);
                }
                break;
            },
        };
        let item = sub_vec(&content, q1 + 1, q2);
        proof {
            let s = c.skip(pos as int);
            let rem = s.skip(q1 - pos + 1);
            assert(rem =~= c.skip(q1 + 1));
            assert(rem.take(q2 - q1 - 1) =~= item@);
            assert(rem.skip(q2 - q1) =~= c.skip(q2 + 1));
            assert(quoted_items(s) == seq![item@] + quoted_items(c.skip(q2 + 1)));
            assert(done + (seq![item@] + quoted_items(c.skip(q2 + 1))) =~= done.push(item@) + quoted_items(c.skip(q2 + 1)));
            assert(done.push(item@).drop_last() =~= done);
            lemma_kept_files_len(done);
        }
        if item.len() > 0 && fits_utf8(&item, DISPLAY_FILE_NAME_CAP) && files.len() < DISPLAY_MAX_FILES {
            let name = string_from_chars(&item);
            files.push(name);
            proof {
                assert(files@.map_values(|f: String| f@) =~= kept_files(done).push(item@));
            }
        }
        proof {
            done = done.push(item@);
        }
        pos = q2 + 1;
    }
    proof {
        assert(v@.skip(a as int).subrange(1, e - a) =~= c);
    }
    files
}

} // verus!

verus! {

/// The quoted string right after the first occurrence of `key`.
pub open spec fn quoted_after_key(body: Seq<char>, key: Seq<char>) -> Option<Seq<char>> {
    match find_first(body, key) {
        None => None,
        Some(i) => quoted_after(body.skip(i + key.len())),
    }
}

/// The file being played, as the status keeps it: the quoted string after
/// `"current":`, or an empty name when it does not fit the name field.
pub open spec fn current_file_of(body: Seq<char>) -> Option<Seq<char>> {
    match quoted_after_key(body, "\"current\":"@) {
        Some(q) => Some(if utf8_len(q) <= DISPLAY_FILE_NAME_CAP { q } else { Seq::empty() }),
        None => None,
    }
}

/// Whether the reply reports playback: the quoted string after `"state":` is
/// `ing` or `playing`.
pub open spec fn is_playing_of(body: Seq<char>) -> bool {
    match quoted_after_key(body, "\"state\":"@) {
        Some(s) => s == "ing"@ || s == "playing"@,
        None => false,
    }
}

/// What a play-status reply reports.
pub struct PlayStatus {
    pub current: Option<String>,
    pub progress: Option<u32>,
    pub total: Option<u32>,
    pub playing: bool,
}

fn quoted_after_key_exec(v: &Vec<char>, key: &str) -> (r: Option<Vec<char>>)
    ensures
        match quoted_after_key(v@, key@) {
            Some(q) => r matches Some(w) && w@ == q,
            None => r is None,
        },
{
    let k = str_chars(key);
    let n = v.len();
    proof {
        assert(v@.skip(0) =~= v@);
    }
    match find_abs(v, 0, &k) {
        Some(i) => {
            assert(i + k.len() <= n);
            match quoted_range(v, i + k.len()) {
                Some((a, b)) => Some(sub_vec(v, a, b)),
                None => None,
            }
        },
        None => None,
    }
}

fn seq_equal(a: &Vec<char>, b: &str) -> (r: bool)
    ensures
        r == (a@ == b@),
{
    let s = string_from_chars(a);
    crate::text::str_equal(s.as_str(), b)
}

/// Reads a play-status reply.
pub fn parse_play_status(body: &str) -> (st: PlayStatus)
    ensures
        match current_file_of(body@) {
            Some(c) => st.current matches Some(s) && s@ == c,
            None => st.current is None,
        },
        st.progress == json_int_value(body@, "\"progress\""@),
        st.total == json_int_value(body@, "\"total\""@),
        st.playing == is_playing_of(body@),
{
    let v = str_chars(body);
    let current = match quoted_after_key_exec(&v, "\"current\":") {
        Some(q) => {
            if fits_utf8(&q, DISPLAY_FILE_NAME_CAP) {
                Some(string_from_chars(&q))
            } else {
                let empty: Vec<char> = Vec::new();
                proof {
                    assert(empty@ =~= Seq::<char>::empty());
                }
                Some(string_from_chars(&empty))
            }
        },
        None => None,
    };
    let progress = find_json_int_value(body, "\"progress\"");
    let total = find_json_int_value(body, "\"total\"");
    let playing = match quoted_after_key_exec(&v, "\"state\":") {
        Some(q) => seq_equal(&q, "ing") || seq_equal(&q, "playing"),
        None => false,
    };
    PlayStatus { current, progress, total, playing }
}

/// The play information of a `play` notification: the file, its progress,
/// whether it plays and its length, when the file, progress and length are all there.
pub fn extract_onplayinfo(body: &str) -> (r: Option<(String, u32, bool, u32)>)
    ensures
        match (current_file_of(body@), json_int_value(body@, "\"progress\""@), json_int_value(body@, "\"total\""@)) {
            (Some(c), Some(p), Some(t)) => r matches Some((s, rp, playing, rt))
                && s@ == c && rp == p && rt == t && playing == is_playing_of(body@),
            _ => r is None,
        },
{
    let st = parse_play_status(body);
    match (st.current, st.progress, st.total) {
        (Some(c), Some(p), Some(t)) => Some((c, p, st.playing, t)),
        _ => None,
    }
}

/// The body length that HTTP headers declare: the text between
/// `Content-Length:` (or else `content-length:`) and the next line break,
/// trimmed and read as a number.
pub open spec fn content_length_of(headers: Seq<char>) -> Option<usize> {
    let (found, at) = match find_first(headers, "Content-Length:"@) {
        Some(i) => (true, i),
        None => match find_first(headers, "content-length:"@) {
            Some(i) => (true, i),
            None => (false, 0),
        },
    };
    if !found {
        None
    } else {
        let sub = headers.skip(at + 15);
        match find_first(sub, "\r\n"@) {
            None => None,
            Some(e) => match parse_unsigned(trim_chars(sub.take(e))) {
                Some(n) => if n <= usize::MAX { Some(n as usize) } else { None },
                None => None,
            },
        }
    }
}

/// Reads the declared body length out of HTTP headers.
pub fn find_content_length(headers: &str) -> (r: Option<usize>)
    ensures
        r == content_length_of(headers@),
{
    let v = str_chars(headers);
    let n = v.len();
    let upper = pattern("Content-Length:");
    let lower = pattern("content-length:");
    let crlf = pattern("\r\n");
    proof {
        reveal_strlit("Content-Length:");
        reveal_strlit("content-length:");
        reveal_strlit("\r\n");
        assert(v@.skip(0) =~= v@);
    }
    let at = match find_abs(&v, 0, &upper) {
        Some(i) => i,
        None => match find_abs(&v, 0, &lower) {
            Some(i) => i,
            None => return None,
        },
    };
    assert(at + 15 <= n);
    match find_abs(&v, at + 15, &crlf) {
        Some(e) => {
            let value = sub_vec(&v, at + 15, e);
            let t = trim(&value);
            proof {
                assert(v@.skip(at + 15).take(e - at - 15) =~= value@);
            }
            parse_usize(&t)
        },
        None => None,
    }
}

fn contains_text(v: &Vec<char>, p: &str) -> (r: bool)
    ensures
        r == contains_seq(v@, p@),
{
    let pv = str_chars(p);
    proof {
        assert(v@.skip(0) =~= v@);
        lemma_find_first_spec(v@, p@);
    }
    match find_abs(v, 0, &pv) {
        Some(i) => {
            proof {
                assert(occurs_at(v@, p@, i as int));
            }
            true
        },
        None => false,
    }
}

/// Whether a reply says the session must be established first: it holds
/// `No active session` or `"code": 1`.
pub fn needs_login(body: &str) -> (r: bool)
    ensures
        r == (contains_seq(body@, "No active session"@) || contains_seq(body@, "\"code\": 1"@)),
{
    let v = str_chars(body);
    contains_text(&v, "No active session") || contains_text(&v, "\"code\": 1")
}

/// Whether a WebSocket handshake reply accepts the upgrade: it holds `101` or `Upgrade`.
pub fn handshake_accepted(response: &str) -> (r: bool)
    ensures
        r == (contains_seq(response@, "101"@) || contains_seq(response@, "Upgrade"@)),
{
    let v = str_chars(response);
    contains_text(&v, "101") || contains_text(&v, "Upgrade")
}

} // verus!

verus! {

/// Longest setting name, in bytes, that the status keeps.
pub const CONFIG_KEY_CAP: usize = 16;

/// Longest setting value, in bytes, that the status keeps.
pub const CONFIG_VALUE_CAP: usize = 64;

/// Most settings that the status keeps.
pub const MAX_CONFIG_ENTRIES: usize = 10;

/// One setting of the display, as its configuration reply lists it.
#[derive(Debug)]
pub struct ConfigEntry {
    pub key: String,
    pub value: String,
}

/// A character appended to a bounded text, when it fits.
pub open spec fn push_fit(acc: Seq<char>, c: char, cap: nat) -> Seq<char> {
    if utf8_len(acc) + crate::text::utf8_width(c) <= cap {
        acc.push(c)
    } else {
        acc
    }
}

/// A quoted value after its opening quote: characters up to the first quote
/// that no backslash escapes, backslashes kept, each kept only when it fits.
pub open spec fn scan_quoted(s: Seq<char>, acc: Seq<char>, escaped: bool) -> Seq<char>
    decreases s.len(),
{
    if s.len() == 0 {
        acc
    } else if escaped {
        scan_quoted(s.drop_first(), push_fit(acc, s[0], CONFIG_VALUE_CAP as nat), false)
    } else if s[0] == '\\' {
        scan_quoted(s.drop_first(), push_fit(acc, s[0], CONFIG_VALUE_CAP as nat), true)
    } else if s[0] == '"' {
        acc
    } else {
        scan_quoted(s.drop_first(), push_fit(acc, s[0], CONFIG_VALUE_CAP as nat), false)
    }
}

/// An unquoted value: characters up to a `,`, `}` or line break, or until one
/// does not fit.
pub open spec fn scan_bare(s: Seq<char>, acc: Seq<char>) -> Seq<char>
    decreases s.len(),
{
    if s.len() == 0 {
        acc
    } else if s[0] == ',' || s[0] == '}' || s[0] == '\r' || s[0] == '\n' {
        acc
    } else if utf8_len(acc) + crate::text::utf8_width(s[0]) <= CONFIG_VALUE_CAP {
        scan_bare(s.drop_first(), acc.push(s[0]))
    } else {
        acc
    }
}

/// The raw value that starts `val_sub`.
pub open spec fn raw_config_value(val_sub: Seq<char>) -> Seq<char> {
    if val_sub.len() > 0 && val_sub[0] == '"' {
        scan_quoted(val_sub.drop_first(), Seq::empty(), false)
    } else {
        scan_bare(val_sub, Seq::empty())
    }
}

/// A setting name as the status keeps it: empty when it does not fit.
pub open spec fn key_field(k: Seq<char>) -> Seq<char> {
    if utf8_len(k) <= CONFIG_KEY_CAP {
        k
    } else {
        Seq::empty()
    }
}

/// The settings listed in `search`, after those already in `acc`: each
/// `"key":` is followed by a quoted name and then by `"value":` and a value;
/// entries with an empty name are skipped, and at most the most are kept.
pub open spec fn config_entries(search: Seq<char>, acc: Seq<(Seq<char>, Seq<char>)>) -> Seq<(Seq<char>, Seq<char>)>
    decreases search.len(),
{
    match find_first(search, "\"key\":"@) {
        None => acc,
        Some(ki) => {
            let key_sub = search.skip(ki + 6);
            match find_first(key_sub, "\""@) {
                None => acc,
                Some(q1) => match find_first(key_sub.skip(q1 + 1), "\""@) {
                    None => acc,
                    Some(q2) => match find_first(key_sub, "\"value\":"@) {
                        None => acc,
                        Some(vi) => {
                            let key_str = key_sub.subrange(q1 + 1, q1 + 1 + q2);
                            let val_sub = crate::scan::trim_start_chars(key_sub.skip(vi + 8));
                            let k = key_field(trim_chars(key_str));
                            let v = trim_chars(raw_config_value(val_sub));
                            let acc2 = if k.len() > 0 && acc.len() < MAX_CONFIG_ENTRIES {
                                acc.push((k, v))
                            } else {
                                acc
                            };
                            proof {
                                reveal_strlit("\"key\":");
                                reveal_strlit("\"");
                                lemma_find_first_spec(search, "\"key\":"@);
                                lemma_find_first_spec(key_sub, "\""@);
                                lemma_find_first_spec(key_sub.skip(q1 + 1), "\""@);
                            }
                            config_entries(key_sub.skip(q1 + 1 + q2), acc2)
                        },
                    },
                },
            }
        },
    }
}

/// Appends `c` to `acc` when it fits in `cap` bytes, tracking the byte count.
fn push_if_fits(acc: &mut Vec<char>, used: &mut usize, c: char, cap: usize) -> (pushed: bool)
    requires
        *old(used) == utf8_len(old(acc)@),
        *old(used) <= cap,
    ensures
        final(acc)@ == push_fit(old(acc)@, c, cap as nat),
        *final(used) == utf8_len(final(acc)@),
        *final(used) <= cap,
        pushed == (final(acc)@ != old(acc)@),
        pushed == (utf8_len(old(acc)@) + crate::text::utf8_width(c) <= cap),
{
    let w = char_utf8_width(c);
    if w <= cap - *used {
        acc.push(c);
        *used = *used + w;
        proof {
            assert(acc@.drop_last() =~= old(acc)@);
        }
        true
    } else {
        false
    }
}

fn scan_quoted_exec(v: &Vec<char>, start: usize) -> (r: Vec<char>)
    requires
        start <= v@.len(),
    ensures
        r@ == scan_quoted(v@.skip(start as int), Seq::empty(), false),
{
    let mut acc: Vec<char> = Vec::new();
    let mut used: usize = 0;
    let mut escaped = false;
    let mut i = start;
    proof {
        assert(acc@ =~= Seq::<char>::empty());
    }
    loop
        invariant
            start <= i <= v@.len(),
            used == utf8_len(acc@),
            used <= CONFIG_VALUE_CAP,
            scan_quoted(v@.skip(start as int), Seq::empty(), false) == scan_quoted(v@.skip(i as int), acc@, escaped),
        ensures
            scan_quoted(v@.skip(start as int), Seq::empty(), false) == acc@,
        decreases v@.len() - i,
    {
        if i >= v.len() {
            proof {
                assert(v@.skip(i as int).len() == 0);
            }
            break;
        }
        let c = v[i];
        proof {
            assert(v@.skip(i as int)[0] == c);
            assert(v@.skip(i as int).drop_first() =~= v@.skip(i + 1));
        }
        if escaped {
            push_if_fits(&mut acc, &mut used, c, CONFIG_VALUE_CAP);
            escaped = false;
        } else if c == '\\' {
            push_if_fits(&mut acc, &mut used, c, CONFIG_VALUE_CAP);
            escaped = true;
        } else if c == '"' {
            break;
        } else {
            push_if_fits(&mut acc, &mut used, c, CONFIG_VALUE_CAP);
        }
        i = i + 1;
    }
    acc
}

fn scan_bare_exec(v: &Vec<char>, start: usize) -> (r: Vec<char>)
    requires
        start <= v@.len(),
    ensures
        r@ == scan_bare(v@.skip(start as int), Seq::empty()),
{
    let mut acc: Vec<char> = Vec::new();
    let mut used: usize = 0;
    let mut i = start;
    proof {
        assert(acc@ =~= Seq::<char>::empty());
    }
    loop
        invariant
            start <= i <= v@.len(),
            used == utf8_len(acc@),
            used <= CONFIG_VALUE_CAP,
            scan_bare(v@.skip(start as int), Seq::empty()) == scan_bare(v@.skip(i as int), acc@),
        ensures
            scan_bare(v@.skip(start as int), Seq::empty()) == acc@,
        decreases v@.len() - i,
    {
        if i >= v.len() {
            proof {
                assert(v@.skip(i as int).len() == 0);
            }
            break;
        }
        let c = v[i];
        proof {
            assert(v@.skip(i as int)[0] == c);
            assert(v@.skip(i as int).drop_first() =~= v@.skip(i + 1));
        }
        if c == ',' || c == '}' || c == '\r' || c == '\n' {
            break;
        }
        if !push_if_fits(&mut acc, &mut used, c, CONFIG_VALUE_CAP) {
            break;
        }
        i = i + 1;
    }
    acc
}

/// The view of a list of settings.
pub open spec fn config_views(v: Seq<ConfigEntry>) -> Seq<(Seq<char>, Seq<char>)> {
    v.map_values(|e: ConfigEntry| (e.key@, e.value@))
}

/// Reads the settings of a configuration reply into `configs`, replacing what
/// it held.
pub fn parse_config_response(body: &str, configs: &mut Vec<ConfigEntry>)
    ensures
        config_views(final(configs)@) == config_entries(body@, Seq::empty()),
{
    configs.clear();
    let v = str_chars(body);
    let n = v.len();
    let key_pat = pattern("\"key\":");
    let quote = pattern("\"");
    let value_pat = pattern("\"value\":");
    let mut pos: usize = 0;
    proof {
        assert(v@.skip(0) =~= v@);
        assert(config_views(configs@) =~= Seq::<(Seq<char>, Seq<char>)>::empty());
    }
    loop
        invariant
            pos <= v@.len(),
            n == v@.len(),
            key_pat@ == "\"key\":"@,
            quote@ == "\""@,
            value_pat@ == "\"value\":"@,
            config_views(configs@).len() <= MAX_CONFIG_ENTRIES,
            config_entries(body@, Seq::empty()) == config_entries(v@.skip(pos as int), config_views(configs@)),
            v@ == body@,
        ensures
            config_entries(body@, Seq::empty()) == config_views(configs@),
        decreases v@.len() - pos,
    {
        proof {
            reveal_strlit("\"key\":");
            reveal_strlit("\"");
            reveal_strlit("\"value\":");
        }
        let ghost search = v@.skip(pos as int);
        let ghost acc = config_views(configs@);
        let ki = match find_abs(&v, pos, &key_pat) {
            Some(k) => k,
            None => break,
        };
        assert(ki + 6 <= n);
        let ks = ki + 6;
        let ghost key_sub = v@.skip(ks as int);
        proof {
            assert(search.skip(ki - pos + 6) =~= key_sub);
        }
        let q1 = match find_abs(&v, ks, &quote) {
            Some(q) => q,
            None => break,
        };
        assert(q1 + 1 <= n);
        let q2 = match find_abs(&v, q1 + 1, &quote) {
            Some(q) => q,
            None => {
                proof {
                    assert(key_sub.skip(q1 - ks + 1) =~= v@.skip(q1 + 1));
                }
                break;
            },
        };
        proof {
            assert(key_sub.skip(q1 - ks + 1) =~= v@.skip(q1 + 1));
        }
        let vi = match find_abs(&v, ks, &value_pat) {
            Some(x) => x,
            None => break,
        };
        assert(vi + 8 <= n);
        let key_str = sub_vec(&v, q1 + 1, q2);
        proof {
            assert(key_sub.subrange(q1 - ks + 1, q2 - ks) =~= key_str@);
            assert(key_sub.skip(vi - ks + 8) =~= v@.skip(vi + 8));
        }
        let rest = sub_vec(&v, vi + 8, n);
        proof {
            assert(rest@ =~= v@.skip(vi + 8));
        }
        let val_sub = crate::scan::trim_start(&rest);
        let raw = if val_sub.len() > 0 && val_sub[0] == '"' {
            proof {
                assert(val_sub@.skip(1) =~= val_sub@.drop_first());
            }
            scan_quoted_exec(&val_sub, 1)
        } else {
            proof {
                assert(val_sub@.skip(0) =~= val_sub@);
            }
            scan_bare_exec(&val_sub, 0)
        };
        let key_trimmed = trim(&key_str);
        let key_vec: Vec<char> = if fits_utf8(&key_trimmed, CONFIG_KEY_CAP) {
            key_trimmed
        } else {
            let e: Vec<char> = Vec::new();
            proof {
                assert(e@ =~= Seq::<char>::empty());
            }
            e
        };
        let value_vec = trim(&raw);
        if key_vec.len() > 0 && configs.len() < MAX_CONFIG_ENTRIES {
            let entry = ConfigEntry { key: string_from_chars(&key_vec), value: string_from_chars(&value_vec) };
            configs.push(entry);
            proof {
                assert(config_views(configs@) =~= acc.push((key_vec@, value_vec@)));
            }
        }
        proof {
            assert(key_sub.skip(q1 - ks + 1 + q2 - q1 - 1) =~= v@.skip(q2 as int));
        }
        pos = q2;
    }
    proof {
        assert(v@ == body@);
    }
}

} // verus!
