//! Splitting a command line into arguments: words separated by whitespace,
//! `"` toggles a quoted run in which whitespace is kept, and `\` takes the next
//! character literally. At most [`MAX_ARGS`] arguments of at most
//! [`MAX_ARG_LEN`] UTF-8 bytes each.

use vstd::prelude::*;
use crate::text::{char_is_whitespace, char_utf8_width, is_white_space, str_chars, string_from_chars, utf8_width};

verus! {

/// Most arguments one command line may hold.
pub const MAX_ARGS: usize = 8;

/// Most UTF-8 bytes one argument may hold.
pub const MAX_ARG_LEN: usize = 96;

/// Why a command line could not be split.
#[derive(Clone, Copy, Debug, PartialEq, Eq, Structural)]
pub enum ParseError {
    TooManyArgs,
    ArgTooLong,
    UnterminatedQuote,
}

/// Where the splitter stands after a prefix of the line.
pub struct SplitState {
    pub args: Seq<Seq<char>>,
    pub current: Seq<char>,
    pub current_bytes: nat,
    pub in_quotes: bool,
    pub escaping: bool,
    pub started: bool,
}

pub open spec fn split_start() -> SplitState {
    SplitState {
        args: Seq::empty(),
        current: Seq::empty(),
        current_bytes: 0,
        in_quotes: false,
        escaping: false,
        started: false,
    }
}

/// Appends a character to the current argument, or fails when it would not fit.
pub open spec fn append_char(st: SplitState, ch: char) -> Result<SplitState, ParseError> {
    if st.current_bytes + utf8_width(ch) > MAX_ARG_LEN {
        Err(ParseError::ArgTooLong)
    } else {
        Ok(SplitState {
            current: st.current.push(ch),
            current_bytes: st.current_bytes + utf8_width(ch),
            started: true,
            escaping: false,
            ..st
        })
    }
}

/// Closes the current argument, or fails when the line already holds the most.
pub open spec fn close_arg(st: SplitState) -> Result<SplitState, ParseError> {
    if st.args.len() >= MAX_ARGS {
        Err(ParseError::TooManyArgs)
    } else {
        Ok(SplitState {
            args: st.args.push(st.current),
            current: Seq::empty(),
            current_bytes: 0,
            started: false,
            ..st
        })
    }
}

/// One character of the line.
pub open spec fn split_step(st: SplitState, ch: char) -> Result<SplitState, ParseError> {
    if st.escaping {
        append_char(st, ch)
    } else if ch == '\\' {
        Ok(SplitState { escaping: true, started: true, ..st })
    } else if ch == '"' {
        Ok(SplitState { in_quotes: !st.in_quotes, started: true, ..st })
    } else if is_white_space(ch) && !st.in_quotes {
        if st.started {
            close_arg(st)
        } else {
            Ok(st)
        }
    } else {
        append_char(st, ch)
    }
}

/// The splitter's state after a prefix of the line, or the first error.
pub open spec fn split_prefix(line: Seq<char>) -> Result<SplitState, ParseError>
    decreases line.len(),
{
    if line.len() == 0 {
        Ok(split_start())
    } else {
        match split_prefix(line.drop_last()) {
            Ok(st) => split_step(st, line.last()),
            Err(e) => Err(e),
        }
    }
}

/// End of line: a trailing `\` stands for itself, an open quote is an error,
/// and a started argument is closed.
pub open spec fn split_finish(st: SplitState) -> Result<Seq<Seq<char>>, ParseError> {
    let st1 = if st.escaping {
        append_char(st, '\\')
    } else {
        Ok(st)
    };
    match st1 {
        Err(e) => Err(e),
        Ok(s) => if s.in_quotes {
            Err(ParseError::UnterminatedQuote)
        } else if s.started {
            match close_arg(s) {
                Ok(t) => Ok(t.args),
                Err(e) => Err(e),
            }
        } else {
            Ok(s.args)
        },
    }
}

/// The arguments of a whole line, or why it cannot be split.
pub open spec fn split_line(line: Seq<char>) -> Result<Seq<Seq<char>>, ParseError> {
    match split_prefix(line) {
        Ok(st) => split_finish(st),
        Err(e) => Err(e),
    }
}

/// The characters of each string.
pub open spec fn string_views(v: Seq<String>) -> Seq<Seq<char>> {
    v.map_values(|s: String| s@)
}

/// An argument within the byte limit.
pub open spec fn arg_fits(a: Seq<char>) -> bool {
    crate::text::utf8_len(a) <= MAX_ARG_LEN
}

/// A text with no quote character.
pub open spec fn quote_free(a: Seq<char>) -> bool {
    forall|k: int| 0 <= k < a.len() ==> a[k] != '"'
}

/// A text with no backslash.
pub open spec fn backslash_free(a: Seq<char>) -> bool {
    forall|k: int| 0 <= k < a.len() ==> a[k] != '\\'
}

proof fn lemma_split_prefix_inv(line: Seq<char>)
    ensures
        split_prefix(line) matches Ok(st) ==> {
            &&& st.args.len() <= MAX_ARGS
            &&& st.current_bytes == crate::text::utf8_len(st.current)
            &&& st.current_bytes <= MAX_ARG_LEN
            &&& forall|i: int| 0 <= i < st.args.len() ==> arg_fits(#[trigger] st.args[i])
        },
        backslash_free(line) ==> (split_prefix(line) matches Ok(st) ==> {
            &&& !st.escaping
            &&& quote_free(st.current)
            &&& forall|i: int| 0 <= i < st.args.len() ==> quote_free(#[trigger] st.args[i])
        }),
    decreases line.len(),
{
    if line.len() > 0 {
        let pre = line.drop_last();
        lemma_split_prefix_inv(pre);
        if backslash_free(line) {
            assert(backslash_free(pre));
        }
        match split_prefix(pre) {
            Ok(st) => {
                let ch = line.last();
                assert(st.current.push(ch).drop_last() =~= st.current);
                if let Ok(st2) = split_step(st, ch) {
                    if st2.args.len() > st.args.len() {
                        assert(st2.args == st.args.push(st.current));
                    }
                }
            },
            Err(_) => {},
        }
    }
}

/// No argument is longer than [`MAX_ARG_LEN`] bytes, and a line gives at
/// most [`MAX_ARGS`] of them.
pub proof fn law_split_bounds(line: Seq<char>)
    ensures
        split_line(line) matches Ok(args) ==> args.len() <= MAX_ARGS && forall|i: int|
            0 <= i < args.len() ==> arg_fits(#[trigger] args[i]),
{
    lemma_split_prefix_inv(line);
    if let Ok(st) = split_prefix(line) {
        let st1 = if st.escaping { append_char(st, '\\') } else { Ok(st) };
        assert(st.current.push('\\').drop_last() =~= st.current);
        if let Ok(s1) = st1 {
            if !s1.in_quotes && s1.started {
                if let Ok(t) = close_arg(s1) {
                    assert(t.args == s1.args.push(s1.current));
                }
            }
        }
    }
}

/// Quotes only delimit: on a line with no backslash, no argument holds a
/// quote character.
pub proof fn law_quotes_not_in_values(line: Seq<char>)
    requires
        backslash_free(line),
    ensures
        split_line(line) matches Ok(args) ==> forall|i: int| 0 <= i < args.len() ==> quote_free(#[trigger] args[i]),
{
    lemma_split_prefix_inv(line);
    if let Ok(st) = split_prefix(line) {
        if !st.in_quotes && st.started {
            if let Ok(t) = close_arg(st) {
                assert(t.args == st.args.push(st.current));
            }
        }
    }
}

/// How many `"` of a line are not taken literally after a `\`, and whether
/// the line ends in a `\` that takes nothing.
pub open spec fn quote_scan(line: Seq<char>) -> (nat, bool)
    decreases line.len(),
{
    if line.len() == 0 {
        (0, false)
    } else {
        let (count, escaping) = quote_scan(line.drop_last());
        let ch = line.last();
        if escaping {
            (count, false)
        } else if ch == '\\' {
            (count, true)
        } else if ch == '"' {
            (count + 1, false)
        } else {
            (count, false)
        }
    }
}

proof fn lemma_quote_scan(line: Seq<char>)
    ensures
        split_prefix(line) matches Ok(st) ==> st.in_quotes == (quote_scan(line).0 % 2 == 1) && st.escaping
            == quote_scan(line).1,
    decreases line.len(),
{
    if line.len() > 0 {
        lemma_quote_scan(line.drop_last());
    }
}

/// A quote is open at the end of a line exactly when the line holds an odd
/// number of quotes not taken literally: for a line that splits without
/// running out of room, `UnterminatedQuote` comes exactly then.
pub proof fn law_unterminated_quote(line: Seq<char>)
    ensures
        split_prefix(line) matches Ok(st) ==> (split_line(line) == Err::<Seq<Seq<char>>, ParseError>(
            ParseError::UnterminatedQuote,
        ) <==> (quote_scan(line).0 % 2 == 1 && !(quote_scan(line).1 && st.current_bytes + 1 > MAX_ARG_LEN))),
{
    lemma_quote_scan(line);
    lemma_split_prefix_inv(line);
    if let Ok(st) = split_prefix(line) {
        assert(utf8_width('\\') == 1);
    }
}

/// The splitter's state after more characters, from an earlier state or error.
pub open spec fn split_from(r: Result<SplitState, ParseError>, b: Seq<char>) -> Result<SplitState, ParseError>
    decreases b.len(),
{
    if b.len() == 0 {
        r
    } else {
        match split_from(r, b.drop_last()) {
            Ok(st) => split_step(st, b.last()),
            Err(e) => Err(e),
        }
    }
}

proof fn lemma_split_concat(a: Seq<char>, b: Seq<char>)
    ensures
        split_prefix(a + b) == split_from(split_prefix(a), b),
    decreases b.len(),
{
    if b.len() == 0 {
        assert(a + b =~= a);
    } else {
        lemma_split_concat(a, b.drop_last());
        assert((a + b).drop_last() =~= a + b.drop_last());
        assert((a + b).last() == b.last());
    }
}

/// A plain word: a run of characters that are neither whitespace, `"` nor `\`.
pub open spec fn is_plain_word(w: Seq<char>) -> bool {
    forall|i: int| 0 <= i < w.len() ==> !is_white_space(#[trigger] w[i]) && w[i] != '"' && w[i] != '\\'
}

/// Words separated by single spaces.
pub open spec fn words_line(ws: Seq<Seq<char>>) -> Seq<char>
    decreases ws.len(),
{
    if ws.len() == 0 {
        Seq::empty()
    } else if ws.len() == 1 {
        ws[0]
    } else {
        words_line(ws.drop_last()) + seq![' '] + ws.last()
    }
}

/// A splitter state between arguments, outside quotes and escapes.
pub open spec fn idle(st: SplitState) -> bool {
    st.current.len() == 0 && st.current_bytes == 0 && !st.started && !st.escaping && !st.in_quotes
}

/// The state after a plain word read from an idle state.
pub open spec fn word_into(st: SplitState, w: Seq<char>) -> Result<SplitState, ParseError> {
    if crate::text::utf8_len(w) <= MAX_ARG_LEN {
        Ok(SplitState { current: w, current_bytes: crate::text::utf8_len(w), started: w.len() > 0, ..st })
    } else {
        Err(ParseError::ArgTooLong)
    }
}

proof fn lemma_word(st: SplitState, w: Seq<char>)
    requires
        idle(st),
        is_plain_word(w),
    ensures
        split_from(Ok(st), w) == word_into(st, w),
    decreases w.len(),
{
    if w.len() == 0 {
        assert(st.current =~= w);
    } else {
        let pre = w.drop_last();
        assert(is_plain_word(pre)) by {
            assert forall|i: int| 0 <= i < pre.len() implies !is_white_space(#[trigger] pre[i]) && pre[i] != '"'
                && pre[i] != '\\' by {
                assert(pre[i] == w[i]);
            }
        }
        lemma_word(st, pre);
        lemma_split_from_err(ParseError::ArgTooLong, Seq::empty());
        let c = w.last();
        assert(!is_white_space(w[w.len() - 1]) && w[w.len() - 1] != '"' && w[w.len() - 1] != '\\');
        if crate::text::utf8_len(pre) <= MAX_ARG_LEN {
            assert(pre.push(c) =~= w);
        }
    }
}

proof fn lemma_split_from_err(e: ParseError, b: Seq<char>)
    ensures
        split_from(Err(e), b) == Err::<SplitState, ParseError>(e),
    decreases b.len(),
{
    if b.len() > 0 {
        lemma_split_from_err(e, b.drop_last());
    }
}

/// Each word fits in an argument.
pub open spec fn words_fit(ws: Seq<Seq<char>>, n: int) -> bool {
    forall|i: int| 0 <= i < n ==> arg_fits(#[trigger] ws[i])
}

pub open spec fn plain_words(ws: Seq<Seq<char>>) -> bool {
    forall|i: int| 0 <= i < ws.len() ==> is_plain_word(#[trigger] ws[i]) && ws[i].len() > 0
}

proof fn lemma_words(ws: Seq<Seq<char>>)
    requires
        ws.len() >= 1,
        plain_words(ws),
    ensures
        words_fit(ws, ws.len() as int) && ws.len() <= MAX_ARGS + 1 ==> split_prefix(words_line(ws)) == Ok::<
            SplitState,
            ParseError,
        >(
            SplitState {
                args: ws.drop_last(),
                current: ws.last(),
                current_bytes: crate::text::utf8_len(ws.last()),
                in_quotes: false,
                escaping: false,
                started: true,
            },
        ),
        words_fit(ws, MAX_ARGS + 1) && ws.len() > MAX_ARGS + 1 ==> split_prefix(words_line(ws)) == Err::<
            SplitState,
            ParseError,
        >(ParseError::TooManyArgs),
        forall|k: int|
            0 <= k < MAX_ARGS && k < ws.len() && !arg_fits(#[trigger] ws[k]) && words_fit(ws, k) ==> split_prefix(
                words_line(ws),
            ) == Err::<SplitState, ParseError>(ParseError::ArgTooLong),
    decreases ws.len(),
{
    assert(ws[0].len() > 0 && is_plain_word(ws[0]));
    if ws.len() == 1 {
        lemma_split_concat(Seq::empty(), ws[0]);
        assert(Seq::<char>::empty() + ws[0] =~= ws[0]);
        lemma_word(split_start(), ws[0]);
        assert(ws.drop_last() =~= Seq::<Seq<char>>::empty());
    } else {
        let pre = ws.drop_last();
        assert(plain_words(pre)) by {
            assert forall|i: int| 0 <= i < pre.len() implies is_plain_word(#[trigger] pre[i]) && pre[i].len() > 0 by {
                assert(pre[i] == ws[i]);
            }
        }
        lemma_words(pre);
        let a = words_line(pre);
        let w = ws.last();
        assert(is_plain_word(ws[ws.len() - 1]) && ws[ws.len() - 1].len() > 0);
        assert(words_line(ws) == a + seq![' '] + w);
        lemma_split_concat(a + seq![' '], w);
        assert((a + seq![' ']).drop_last() =~= a);
        assert((a + seq![' ']).last() == ' ');
        assert(is_white_space(' '));
        // the state before the space, when the earlier words gave one
        if words_fit(ws, ws.len() as int) && ws.len() <= MAX_ARGS + 1 {
            assert(words_fit(pre, pre.len() as int)) by {
                assert forall|i: int| 0 <= i < pre.len() implies arg_fits(#[trigger] pre[i]) by {
                    assert(pre[i] == ws[i]);
                }
            }
            let st = SplitState {
                args: pre.drop_last(),
                current: pre.last(),
                current_bytes: crate::text::utf8_len(pre.last()),
                in_quotes: false,
                escaping: false,
                started: true,
            };
            assert(split_prefix(a) == Ok::<SplitState, ParseError>(st));
            let closed = SplitState { args: pre, current: Seq::empty(), current_bytes: 0, started: false, ..st };
            assert(pre.drop_last().push(pre.last()) =~= pre);
            assert(split_prefix(a + seq![' ']) == Ok::<SplitState, ParseError>(closed));
            lemma_word(closed, w);
            assert(arg_fits(ws[ws.len() - 1]));
        }
        if words_fit(ws, MAX_ARGS + 1) && ws.len() > MAX_ARGS + 1 {
            assert(words_fit(pre, MAX_ARGS + 1)) by {
                assert forall|i: int| 0 <= i < MAX_ARGS + 1 implies arg_fits(#[trigger] pre[i]) by {
                    assert(pre[i] == ws[i]);
                }
            }
            if pre.len() == MAX_ARGS + 1 {
                assert(words_fit(pre, pre.len() as int));
                assert(split_prefix(a + seq![' ']) == Err::<SplitState, ParseError>(ParseError::TooManyArgs));
            } else {
                assert(split_prefix(a + seq![' ']) == Err::<SplitState, ParseError>(ParseError::TooManyArgs));
            }
            lemma_split_from_err(ParseError::TooManyArgs, w);
        }
        assert forall|k: int|
            0 <= k < MAX_ARGS && k < ws.len() && !arg_fits(#[trigger] ws[k]) && words_fit(ws, k) implies split_prefix(
            words_line(ws),
        ) == Err::<SplitState, ParseError>(ParseError::ArgTooLong) by {
            if k < pre.len() {
                assert(pre[k] == ws[k]);
                assert(words_fit(pre, k)) by {
                    assert forall|i: int| 0 <= i < k implies arg_fits(#[trigger] pre[i]) by {
                        assert(pre[i] == ws[i]);
                    }
                }
                assert(!arg_fits(pre[k]));
                assert(split_prefix(a) == Err::<SplitState, ParseError>(ParseError::ArgTooLong));
                assert(split_prefix(a + seq![' ']) == Err::<SplitState, ParseError>(ParseError::ArgTooLong));
                lemma_split_from_err(ParseError::ArgTooLong, w);
            } else {
                assert(k == pre.len());
                assert(words_fit(pre, pre.len() as int)) by {
                    assert forall|i: int| 0 <= i < pre.len() implies arg_fits(#[trigger] pre[i]) by {
                        assert(pre[i] == ws[i]);
                    }
                }
                let st = SplitState {
                    args: pre.drop_last(),
                    current: pre.last(),
                    current_bytes: crate::text::utf8_len(pre.last()),
                    in_quotes: false,
                    escaping: false,
                    started: true,
                };
                assert(split_prefix(a) == Ok::<SplitState, ParseError>(st));
                let closed = SplitState { args: pre, current: Seq::empty(), current_bytes: 0, started: false, ..st };
                assert(pre.drop_last().push(pre.last()) =~= pre);
                assert(split_prefix(a + seq![' ']) == Ok::<SplitState, ParseError>(closed));
                lemma_word(closed, w);
                assert(w == ws[k]);
            }
        }
    }
}

/// Lines of plain words separated by single spaces split as the words say:
/// up to [`MAX_ARGS`] words that fit give exactly those words (none for an
/// empty line); with more words, the first [`MAX_ARGS`] `+ 1` of which fit,
/// the line has too many arguments; a word among the first [`MAX_ARGS`] that
/// does not fit, after words that do, makes the line's argument too long.
pub proof fn law_split_words(ws: Seq<Seq<char>>)
    requires
        plain_words(ws),
    ensures
        words_fit(ws, ws.len() as int) && ws.len() <= MAX_ARGS ==> split_line(words_line(ws)) == Ok::<
            Seq<Seq<char>>,
            ParseError,
        >(ws),
        words_fit(ws, MAX_ARGS + 1) && ws.len() > MAX_ARGS ==> split_line(words_line(ws)) == Err::<
            Seq<Seq<char>>,
            ParseError,
        >(ParseError::TooManyArgs),
        forall|k: int|
            0 <= k < MAX_ARGS && k < ws.len() && !arg_fits(#[trigger] ws[k]) && words_fit(ws, k) ==> split_line(
                words_line(ws),
            ) == Err::<Seq<Seq<char>>, ParseError>(ParseError::ArgTooLong),
{
    if ws.len() == 0 {
        assert(split_start().args =~= ws);
    } else {
        lemma_words(ws);
        if words_fit(ws, ws.len() as int) && ws.len() <= MAX_ARGS {
            assert(ws.drop_last().push(ws.last()) =~= ws);
        }
    }
}

/// Splits a command line into its arguments.
pub fn parse_args(line: &str) -> (r: Result<Vec<String>, ParseError>)
    ensures
        match (r, split_line(line@)) {
            (Ok(v), Ok(a)) => string_views(v@) == a,
            (Err(e), Err(f)) => e == f,
            _ => false,
        },
{
    let chars = str_chars(line);
    let ghost cs = chars@;
    let mut args: Vec<Vec<char>> = Vec::new();
    let mut current: Vec<char> = Vec::new();
    let mut current_bytes: usize = 0;
    let mut in_quotes = false;
    let mut escaping = false;
    let mut token_started = false;
    let mut i: usize = 0;
    proof {
        assert(cs.take(0) =~= Seq::<char>::empty());
        assert(args@.map_values(|a: Vec<char>| a@) =~= Seq::<Seq<char>>::empty());
        assert(current@ =~= Seq::<char>::empty());
    }
    while i < chars.len()
        invariant
            cs == line@,
            chars@ == cs,
            i <= cs.len(),
            split_prefix(cs.take(i as int)) == Ok::<SplitState, ParseError>(SplitState {
                args: args@.map_values(|a: Vec<char>| a@),
                current: current@,
                current_bytes: current_bytes as nat,
                in_quotes,
                escaping,
                started: token_started,
            }),
            args@.len() <= MAX_ARGS,
            current_bytes <= MAX_ARG_LEN,
        decreases cs.len() - i,
    {
        let ch = chars[i];
        let ghost before = SplitState {
            args: args@.map_values(|a: Vec<char>| a@),
            current: current@,
            current_bytes: current_bytes as nat,
            in_quotes,
            escaping,
            started: token_started,
        };
        proof {
            assert(cs.take(i + 1).drop_last() =~= cs.take(i as int));
            assert(cs.take(i + 1).last() == ch);
        }
        let push_char = if escaping {
            true
        } else if ch == '\\' {
            escaping = true;
            token_started = true;
            false
        } else if ch == '"' {
            in_quotes = !in_quotes;
            token_started = true;
            false
        } else if char_is_whitespace(ch) && !in_quotes {
            if token_started {
                if args.len() >= MAX_ARGS {
                    proof { lemma_split_prefix_err(cs, i as nat + 1); }
                    return Err(ParseError::TooManyArgs);
                }
                let done = current;
                args.push(done);
                current = Vec::new();
                current_bytes = 0;
                token_started = false;
                proof {
                    assert(args@.map_values(|a: Vec<char>| a@) =~= before.args.push(before.current));
                }
            }
            false
        } else {
            true
        };
        if push_char {
            let w = char_utf8_width(ch);
            if current_bytes + w > MAX_ARG_LEN {
                proof { lemma_split_prefix_err(cs, i as nat + 1); }
                return Err(ParseError::ArgTooLong);
            }
            current.push(ch);
            current_bytes = current_bytes + w;
            escaping = false;
            token_started = true;
        }
        i = i + 1;
    }
    proof {
        assert(cs.take(cs.len() as int) =~= cs);
    }
    let ghost st = SplitState {
        args: args@.map_values(|a: Vec<char>| a@),
        current: current@,
        current_bytes: current_bytes as nat,
        in_quotes,
        escaping,
        started: token_started,
    };
    if escaping {
        if current_bytes + 1 > MAX_ARG_LEN {
            return Err(ParseError::ArgTooLong);
        }
        current.push('\\');
        current_bytes = current_bytes + 1;
    }
    if in_quotes {
        return Err(ParseError::UnterminatedQuote);
    }
    if token_started {
        if args.len() >= MAX_ARGS {
            return Err(ParseError::TooManyArgs);
        }
        args.push(current);
    }
    let mut out: Vec<String> = Vec::new();
    let mut k: usize = 0;
    while k < args.len()
        invariant
            k <= args@.len(),
            out@.len() == k,
            forall|j: int| 0 <= j < k ==> #[trigger] out@[j]@ == args@[j]@,
        decreases args@.len() - k,
    {
        out.push(string_from_chars(&args[k]));
        k = k + 1;
    }
    proof {
        assert(string_views(out@) =~= args@.map_values(|a: Vec<char>| a@));
    }
    Ok(out)
}

/// Once the splitter fails on a prefix, the whole line fails the same way.
proof fn lemma_split_prefix_err(cs: Seq<char>, n: nat)
    requires
        n <= cs.len(),
        split_prefix(cs.take(n as int)) is Err,
    ensures
        split_line(cs) == Err::<Seq<Seq<char>>, ParseError>(split_prefix(cs.take(n as int))->Err_0),
    decreases cs.len() - n,
{
    if n == cs.len() {
        assert(cs.take(n as int) =~= cs);
    } else {
        assert(cs.take(n + 1 as int).drop_last() =~= cs.take(n as int));
        lemma_split_prefix_err(cs, n + 1);
    }
}

} // verus!
