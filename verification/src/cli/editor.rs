//! The line editor of a CLI session, as a state machine fed one received byte
//! at a time: printable characters are inserted at the cursor, backspace and
//! delete remove around it, the arrow keys move it or recall history, and a
//! carriage return or line feed submits the line.

use vstd::prelude::*;
use vstd::string::StringSliceAdditionalSpecFns;
use crate::cli::history::{all_printable, history_after_push, is_printable, History, MAX_LINE_SIZE};
use crate::text::{all_ascii, ascii_chars, ascii_string, bytes_to_vec, decimal_bytes, decimal_digits};

verus! {

pub const KEY_CR: u8 = 0x0d;
pub const KEY_LF: u8 = 0x0a;
pub const KEY_BACKSPACE: u8 = 0x08;
pub const KEY_DEL: u8 = 0x7f;
pub const KEY_ESC: u8 = 0x1b;
/// `[`, which follows the escape of an arrow or delete key.
pub const KEY_CSI: u8 = 0x5b;
pub const KEY_UP: u8 = 0x41;
pub const KEY_DOWN: u8 = 0x42;
pub const KEY_RIGHT: u8 = 0x43;
pub const KEY_LEFT: u8 = 0x44;
/// `3`, the first byte after `ESC [` of the delete key.
pub const KEY_DELETE_3: u8 = 0x33;
/// `~`, the last byte of the delete key.
pub const KEY_TILDE: u8 = 0x7e;

/// Where the editor stands in an escape sequence.
#[derive(Clone, Copy, Debug, PartialEq, Eq, Structural)]
pub enum EscapeState {
    Normal,
    /// After `ESC`.
    Escape,
    /// After `ESC [`.
    Csi,
    /// After `ESC [ 3`.
    DeleteKey,
}

/// What the session does after a byte.
pub enum EditAction {
    /// Nothing to show.
    Ignore,
    /// Redraw the prompt and line with the cursor in place.
    Redraw,
    /// The line was submitted: echo a line break and run it.
    Submit(Vec<u8>),
}

/// The editor's state as the specification sees it.
pub struct EditorState {
    pub line: Seq<u8>,
    pub cursor: nat,
    pub history_cursor: Option<nat>,
    pub escape: EscapeState,
}

/// What a byte does, as the specification sees it.
pub enum EditOutcome {
    Ignore,
    Redraw,
    Submit(Seq<u8>),
}

pub open spec fn editor_start() -> EditorState {
    EditorState { line: Seq::empty(), cursor: 0, history_cursor: None, escape: EscapeState::Normal }
}

/// The line shown after recalling the history entry `index`.
pub open spec fn recalled(hist: Seq<Seq<u8>>, index: nat) -> Seq<u8> {
    if index < hist.len() {
        hist[index as int]
    } else {
        Seq::empty()
    }
}

pub open spec fn seq_insert(s: Seq<u8>, i: nat, b: u8) -> Seq<u8> {
    s.subrange(0, i as int).push(b) + s.subrange(i as int, s.len() as int)
}

pub open spec fn seq_remove(s: Seq<u8>, i: nat) -> Seq<u8> {
    s.subrange(0, i as int) + s.subrange(i + 1 as int, s.len() as int)
}

/// The keys after `ESC [`.
pub open spec fn csi_step(st: EditorState, b: u8, hist: Seq<Seq<u8>>) -> (EditorState, EditOutcome) {
    let st = EditorState { escape: EscapeState::Normal, ..st };
    if b == KEY_UP {
        if hist.len() == 0 {
            (st, EditOutcome::Ignore)
        } else {
            let next: nat = match st.history_cursor {
                None => (hist.len() - 1) as nat,
                Some(i) => if i > 0 { (i - 1) as nat } else { i },
            };
            let line = recalled(hist, next);
            (EditorState { line, cursor: line.len(), history_cursor: Some(next), ..st }, EditOutcome::Redraw)
        }
    } else if b == KEY_DOWN {
        match st.history_cursor {
            Some(i) => if i + 1 < hist.len() {
                let line = recalled(hist, i + 1);
                (EditorState { line, cursor: line.len(), history_cursor: Some(i + 1), ..st }, EditOutcome::Redraw)
            } else {
                (EditorState { line: Seq::empty(), cursor: 0, history_cursor: None, ..st }, EditOutcome::Redraw)
            },
            None => (st, EditOutcome::Ignore),
        }
    } else if b == KEY_RIGHT && st.cursor < st.line.len() {
        (EditorState { cursor: st.cursor + 1, ..st }, EditOutcome::Redraw)
    } else if b == KEY_LEFT && st.cursor > 0 {
        (EditorState { cursor: (st.cursor - 1) as nat, ..st }, EditOutcome::Redraw)
    } else if b == KEY_DELETE_3 {
        (EditorState { escape: EscapeState::DeleteKey, ..st }, EditOutcome::Ignore)
    } else {
        (st, EditOutcome::Ignore)
    }
}

/// One received byte: the editor's next state and what the session does.
pub open spec fn edit_step(st: EditorState, b: u8, hist: Seq<Seq<u8>>) -> (EditorState, EditOutcome) {
    match st.escape {
        EscapeState::Escape => if b == KEY_CSI {
            (EditorState { escape: EscapeState::Csi, ..st }, EditOutcome::Ignore)
        } else {
            (EditorState { escape: EscapeState::Normal, ..st }, EditOutcome::Ignore)
        },
        EscapeState::DeleteKey => {
            let st = EditorState { escape: EscapeState::Normal, ..st };
            if b == KEY_TILDE && st.cursor < st.line.len() {
                (EditorState { line: seq_remove(st.line, st.cursor), ..st }, EditOutcome::Redraw)
            } else {
                (st, EditOutcome::Ignore)
            }
        },
        EscapeState::Csi => csi_step(st, b, hist),
        EscapeState::Normal => if b == KEY_CR || b == KEY_LF {
            (EditorState { line: Seq::empty(), cursor: 0, ..st }, EditOutcome::Submit(st.line))
        } else if (b == KEY_BACKSPACE || b == KEY_DEL) && st.cursor > 0 {
            (
                EditorState {
                    line: seq_remove(st.line, (st.cursor - 1) as nat),
                    cursor: (st.cursor - 1) as nat,
                    ..st
                },
                EditOutcome::Redraw,
            )
        } else if b == KEY_ESC {
            (EditorState { escape: EscapeState::Escape, ..st }, EditOutcome::Ignore)
        } else if is_printable(b) && st.line.len() < MAX_LINE_SIZE - 1 {
            (
                EditorState { line: seq_insert(st.line, st.cursor, b), cursor: st.cursor + 1, ..st },
                EditOutcome::Redraw,
            )
        } else {
            (st, EditOutcome::Ignore)
        },
    }
}

pub struct LineEditor {
    line: Vec<u8>,
    cursor: usize,
    history_cursor: Option<usize>,
    escape: EscapeState,
}

pub open spec fn editor_state_wf(st: EditorState) -> bool {
    &&& st.line.len() <= MAX_LINE_SIZE
    &&& st.cursor <= st.line.len()
    &&& all_printable(st.line)
}

impl LineEditor {
    pub closed spec fn state(&self) -> EditorState {
        EditorState {
            line: self.line@,
            cursor: self.cursor as nat,
            history_cursor: match self.history_cursor {
                Some(i) => Some(i as nat),
                None => None,
            },
            escape: self.escape,
        }
    }

    pub closed spec fn wf(&self) -> bool {
        editor_state_wf(self.state())
    }

    /// A fresh editor with an empty line, as at each prompt.
    pub fn new() -> (e: Self)
        ensures
            e.wf(),
            e.state() == editor_start(),
    {
        let e = LineEditor { line: Vec::new(), cursor: 0, history_cursor: None, escape: EscapeState::Normal };
        proof {
            assert(e.line@ =~= Seq::<u8>::empty());
        }
        e
    }

    pub fn line(&self) -> (l: &Vec<u8>)
        ensures
            l@ == self.state().line,
    {
        &self.line
    }

    pub fn cursor(&self) -> (c: usize)
        ensures
            c == self.state().cursor,
    {
        self.cursor
    }

    /// The history entry last recalled, if any since the editor was made.
    pub fn history_cursor(&self) -> (h: Option<usize>)
        ensures
            h matches Some(i) ==> self.state().history_cursor == Some(i as nat),
            h is None ==> self.state().history_cursor is None,
    {
        self.history_cursor
    }

    fn recall(&mut self, history: &History, index: usize)
        requires
            old(self).wf(),
            history.wf(),
        ensures
            final(self).state() == (EditorState {
                line: recalled(history.view(), index as nat),
                cursor: recalled(history.view(), index as nat).len(),
                history_cursor: Some(index as nat),
                escape: old(self).state().escape,
            }),
            final(self).wf(),
    {
        self.history_cursor = Some(index);
        match history.get(index) {
            Some(entry) => {
                self.line = bytes_to_vec(entry.as_slice());
            },
            None => {
                self.line = Vec::new();
                proof {
                    assert(self.line@ =~= Seq::<u8>::empty());
                }
            },
        }
        self.cursor = self.line.len();
    }

    fn csi_key(&mut self, b: u8, history: &History) -> (a: EditAction)
        requires
            old(self).wf(),
            history.wf(),
            old(self).state().escape == EscapeState::Csi,
        ensures
            final(self).wf(),
            (final(self).state(), outcome_of(&a)) == csi_step(old(self).state(), b, history.view()),
    {
        self.escape = EscapeState::Normal;
        if b == KEY_UP {
            let n = history.len();
            if n == 0 {
                return EditAction::Ignore;
            }
            let next = match self.history_cursor {
                None => n - 1,
                Some(i) => if i > 0 { i - 1 } else { i },
            };
            self.recall(history, next);
            EditAction::Redraw
        } else if b == KEY_DOWN {
            match self.history_cursor {
                Some(i) => {
                    if i < history.len() && i + 1 < history.len() {
                        self.recall(history, i + 1);
                    } else {
                        self.history_cursor = None;
                        self.line = Vec::new();
                        self.cursor = 0;
                        proof {
                            assert(self.line@ =~= Seq::<u8>::empty());
                        }
                    }
                    EditAction::Redraw
                },
                None => EditAction::Ignore,
            }
        } else if b == KEY_RIGHT && self.cursor < self.line.len() {
            self.cursor = self.cursor + 1;
            EditAction::Redraw
        } else if b == KEY_LEFT && self.cursor > 0 {
            self.cursor = self.cursor - 1;
            EditAction::Redraw
        } else if b == KEY_DELETE_3 {
            self.escape = EscapeState::DeleteKey;
            EditAction::Ignore
        } else {
            EditAction::Ignore
        }
    }

    /// Feeds one received byte.
    pub fn feed(&mut self, b: u8, history: &History) -> (a: EditAction)
        requires
            old(self).wf(),
            history.wf(),
        ensures
            final(self).wf(),
            (final(self).state(), outcome_of(&a)) == edit_step(old(self).state(), b, history.view()),
    {
        match self.escape {
            EscapeState::Escape => {
                if b == KEY_CSI {
                    self.escape = EscapeState::Csi;
                } else {
                    self.escape = EscapeState::Normal;
                }
                EditAction::Ignore
            },
            EscapeState::DeleteKey => {
                self.escape = EscapeState::Normal;
                if b == KEY_TILDE && self.cursor < self.line.len() {
                    let ghost before = self.line@;
                    self.line.remove(self.cursor);
                    proof {
                        assert(self.line@ =~= seq_remove(before, self.cursor as nat));
                    }
                    EditAction::Redraw
                } else {
                    EditAction::Ignore
                }
            },
            EscapeState::Csi => self.csi_key(b, history),
            EscapeState::Normal => {
                if b == KEY_CR || b == KEY_LF {
                    let mut line: Vec<u8> = Vec::new();
                    core::mem::swap(&mut line, &mut self.line);
                    self.cursor = 0;
                    proof {
                        assert(self.line@ =~= Seq::<u8>::empty());
                    }
                    EditAction::Submit(line)
                } else if (b == KEY_BACKSPACE || b == KEY_DEL) && self.cursor > 0 {
                    let ghost before = self.line@;
                    self.line.remove(self.cursor - 1);
                    self.cursor = self.cursor - 1;
                    proof {
                        assert(self.line@ =~= seq_remove(before, self.cursor as nat));
                    }
                    EditAction::Redraw
                } else if b == KEY_ESC {
                    self.escape = EscapeState::Escape;
                    EditAction::Ignore
                } else if b >= 0x20 && b <= 0x7e && self.line.len() < MAX_LINE_SIZE - 1 {
                    let ghost before = self.line@;
                    self.line.insert(self.cursor, b);
                    self.cursor = self.cursor + 1;
                    proof {
                        assert(self.line@ =~= seq_insert(before, (self.cursor - 1) as nat, b));
                    }
                    EditAction::Redraw
                } else {
                    EditAction::Ignore
                }
            },
        }
    }
}

/// The bytes that redraw the prompt and line: return to the start of the row,
/// the prompt and the line, clear to the end of the row, then move the
/// terminal cursor back over the part of the line after the editor's cursor.
pub open spec fn redraw_bytes(prompt: Seq<u8>, line: Seq<u8>, cursor: nat) -> Seq<u8> {
    let tail: nat = if cursor < line.len() { (line.len() - cursor) as nat } else { 0 };
    seq![KEY_CR] + prompt + line + seq![KEY_ESC, KEY_CSI, 0x4bu8] + if tail > 0 {
        seq![KEY_ESC, KEY_CSI] + decimal_digits(tail) + seq![KEY_LEFT]
    } else {
        Seq::empty()
    }
}

fn append_bytes(out: &mut Vec<u8>, b: &[u8])
    ensures
        final(out)@ == old(out)@ + b@,
{
    let mut i: usize = 0;
    while i < b.len()
        invariant
            i <= b@.len(),
            out@ == old(out)@ + b@.take(i as int),
        decreases b@.len() - i,
    {
        out.push(b[i]);
        i = i + 1;
        proof {
            assert(out@ =~= old(out)@ + b@.take(i as int));
        }
    }
    proof {
        assert(b@.take(b@.len() as int) =~= b@);
    }
}

/// The bytes that redraw a prompt and line with the cursor in place.
pub fn render_line(prompt: &str, line: &[u8], cursor: usize) -> (out: Vec<u8>)
    ensures
        out@ == redraw_bytes(prompt.spec_bytes(), line@, cursor as nat),
{
    let mut out: Vec<u8> = Vec::new();
    out.push(KEY_CR);
    append_bytes(&mut out, prompt.as_bytes());
    append_bytes(&mut out, line);
    out.push(KEY_ESC);
    out.push(KEY_CSI);
    out.push(0x4b);
    let tail: usize = if cursor < line.len() { line.len() - cursor } else { 0 };
    if tail > 0 {
        out.push(KEY_ESC);
        out.push(KEY_CSI);
        let digits = decimal_bytes(tail as u64);
        append_bytes(&mut out, digits.as_slice());
        out.push(KEY_LEFT);
    }
    proof {
        let tail_spec: nat = if cursor < line@.len() { (line@.len() - cursor) as nat } else { 0 };
        assert(tail_spec == tail as nat);
        assert(out@ =~= redraw_bytes(prompt.spec_bytes(), line@, cursor as nat));
    }
    out
}

/// ASCII whitespace, which trimming removes from both ends of a line.
pub open spec fn is_ascii_space(b: u8) -> bool {
    (0x09 <= b <= 0x0d) || b == 0x20
}

/// A line without its leading and trailing whitespace.
pub open spec fn trim_spaces(s: Seq<u8>) -> Seq<u8>
    decreases s.len(),
{
    if s.len() > 0 && is_ascii_space(s[0]) {
        trim_spaces(s.drop_first())
    } else if s.len() > 0 && is_ascii_space(s.last()) {
        trim_spaces(s.drop_last())
    } else {
        s
    }
}

/// A submitted line: trimmed, and when anything is left, recorded in the
/// history and handed on as the command to run.
pub fn accept_line(history: &mut History, line: &Vec<u8>) -> (cmd: Option<String>)
    requires
        old(history).wf(),
        all_printable(line@),
    ensures
        final(history).wf(),
        final(history).view() == history_after_accept(old(history).view(), line@),
        trim_spaces(line@).len() == 0 ==> cmd is None && final(history).view() == old(history).view(),
        trim_spaces(line@).len() > 0 ==> (cmd matches Some(c) && c@ == ascii_chars(trim_spaces(line@)))
            && final(history).view() == history_after_push(old(history).view(), trim_spaces(line@)),
{
    let mut start: usize = 0;
    let mut end: usize = line.len();
    proof {
        assert(line@.subrange(0, line@.len() as int) =~= line@);
    }
    while start < end && (line[start] == 0x20 || (line[start] >= 0x09 && line[start] <= 0x0d))
        invariant
            start <= end <= line@.len(),
            trim_spaces(line@.subrange(start as int, end as int)) == trim_spaces(line@),
        decreases end - start,
    {
        proof {
            let t = line@.subrange(start as int, end as int);
            assert(t.drop_first() =~= line@.subrange(start + 1, end as int));
        }
        start = start + 1;
    }
    while start < end && (line[end - 1] == 0x20 || (line[end - 1] >= 0x09 && line[end - 1] <= 0x0d))
        invariant
            start <= end <= line@.len(),
            trim_spaces(line@.subrange(start as int, end as int)) == trim_spaces(line@),
            start < end ==> !is_ascii_space(line@[start as int]),
        decreases end - start,
    {
        proof {
            let t = line@.subrange(start as int, end as int);
            assert(t.drop_last() =~= line@.subrange(start as int, end - 1));
        }
        end = end - 1;
    }
    let ghost t = line@.subrange(start as int, end as int);
    proof {
        if t.len() > 0 {
            assert(!is_ascii_space(t[0]));
            assert(!is_ascii_space(t.last()));
        }
        assert(trim_spaces(t) == t);
    }
    if start == end {
        return None;
    }
    let trimmed = bytes_to_vec(&line.as_slice()[start..end]);
    assert(trimmed@ =~= t);
    history.push(trimmed.as_slice());
    proof {
        assert forall|i: int| 0 <= i < t.len() implies #[trigger] t[i] < 0x80 by {
            assert(t[i] == line@[start + i]);
        }
    }
    Some(ascii_string(trimmed))
}

/// What an action is, as the specification sees it.
pub open spec fn outcome_of(a: &EditAction) -> EditOutcome {
    match a {
        EditAction::Ignore => EditOutcome::Ignore,
        EditAction::Redraw => EditOutcome::Redraw,
        EditAction::Submit(l) => EditOutcome::Submit(l@),
    }
}

/// Whatever bytes arrive, the line stays printable and within
/// [`MAX_LINE_SIZE`], with the cursor inside it, as long as the history holds
/// such lines.
pub proof fn law_edit_step_wf(st: EditorState, b: u8, hist: Seq<Seq<u8>>)
    requires
        editor_state_wf(st),
        forall|i: int| 0 <= i < hist.len() ==> (#[trigger] hist[i]).len() <= MAX_LINE_SIZE && all_printable(hist[i]),
    ensures
        editor_state_wf(edit_step(st, b, hist).0),
{
    let next = edit_step(st, b, hist).0;
    if st.escape == EscapeState::Normal && !(b == KEY_CR || b == KEY_LF) && !((b == KEY_BACKSPACE || b == KEY_DEL)
        && st.cursor > 0) && b != KEY_ESC && is_printable(b) && st.line.len() < MAX_LINE_SIZE - 1 {
        assert forall|k: int| 0 <= k < next.line.len() implies is_printable(#[trigger] next.line[k]) by {
            if k < st.cursor {
                assert(next.line[k] == st.line[k]);
            } else if k > st.cursor {
                assert(next.line[k] == st.line[k - 1]);
            }
        }
    }
    if st.escape == EscapeState::Normal && !(b == KEY_CR || b == KEY_LF) && (b == KEY_BACKSPACE || b == KEY_DEL)
        && st.cursor > 0 {
        assert forall|k: int| 0 <= k < next.line.len() implies is_printable(#[trigger] next.line[k]) by {
            if k < st.cursor - 1 {
                assert(next.line[k] == st.line[k]);
            } else {
                assert(next.line[k] == st.line[k + 1]);
            }
        }
    }
    if st.escape == EscapeState::DeleteKey && b == KEY_TILDE && st.cursor < st.line.len() {
        assert forall|k: int| 0 <= k < next.line.len() implies is_printable(#[trigger] next.line[k]) by {
            if k < st.cursor {
                assert(next.line[k] == st.line[k]);
            } else {
                assert(next.line[k] == st.line[k + 1]);
            }
        }
    }
}


/// The editor's state after a run of received bytes, one step at a time.
pub open spec fn edit_run(st: EditorState, bytes: Seq<u8>, hist: Seq<Seq<u8>>) -> EditorState
    decreases bytes.len(),
{
    if bytes.len() == 0 {
        st
    } else {
        edit_run(edit_step(st, bytes[0], hist).0, bytes.drop_first(), hist)
    }
}

/// History whose lines are printable and shorter than [`MAX_LINE_SIZE`].
pub open spec fn short_printable_lines(hist: Seq<Seq<u8>>) -> bool {
    forall|i: int| 0 <= i < hist.len() ==> (#[trigger] hist[i]).len() < MAX_LINE_SIZE && all_printable(hist[i])
}

/// One byte keeps the line printable and shorter than [`MAX_LINE_SIZE`], and a
/// submitted line is the line as it stood.
pub proof fn law_edit_step_short_line(st: EditorState, b: u8, hist: Seq<Seq<u8>>)
    requires
        editor_state_wf(st),
        st.line.len() < MAX_LINE_SIZE,
        short_printable_lines(hist),
    ensures
        editor_state_wf(edit_step(st, b, hist).0),
        edit_step(st, b, hist).0.line.len() < MAX_LINE_SIZE,
        edit_step(st, b, hist).1 matches EditOutcome::Submit(l) ==> l == st.line && l.len() < MAX_LINE_SIZE
            && all_printable(l),
{
    law_edit_step_wf(st, b, hist);
}

/// Over a whole read the line stays printable, shorter than
/// [`MAX_LINE_SIZE`], and the cursor stays inside it.
pub proof fn law_edit_run_short_line(st: EditorState, bytes: Seq<u8>, hist: Seq<Seq<u8>>)
    requires
        editor_state_wf(st),
        st.line.len() < MAX_LINE_SIZE,
        short_printable_lines(hist),
    ensures
        editor_state_wf(edit_run(st, bytes, hist)),
        edit_run(st, bytes, hist).line.len() < MAX_LINE_SIZE,
    decreases bytes.len(),
{
    if bytes.len() > 0 {
        law_edit_step_short_line(st, bytes[0], hist);
        law_edit_run_short_line(edit_step(st, bytes[0], hist).0, bytes.drop_first(), hist);
    }
}

/// The escape sequence of the up-arrow key starts at `i`.
pub open spec fn up_arrow_at(bytes: Seq<u8>, i: int) -> bool {
    0 <= i && i + 2 < bytes.len() && bytes[i] == KEY_ESC && bytes[i + 1] == KEY_CSI && bytes[i + 2] == KEY_UP
}

proof fn lemma_run_no_recall(st: EditorState, bytes: Seq<u8>, hist: Seq<Seq<u8>>)
    requires
        st.history_cursor is None,
        forall|i: int| !#[trigger] up_arrow_at(bytes, i),
        st.escape == EscapeState::Csi ==> bytes.len() == 0 || bytes[0] != KEY_UP,
        st.escape == EscapeState::Escape ==> bytes.len() < 2 || !(bytes[0] == KEY_CSI && bytes[1] == KEY_UP),
    ensures
        edit_run(st, bytes, hist).history_cursor is None,
    decreases bytes.len(),
{
    if bytes.len() > 0 {
        let rest = bytes.drop_first();
        let next = edit_step(st, bytes[0], hist).0;
        assert forall|i: int| !#[trigger] up_arrow_at(rest, i) by {
            if up_arrow_at(rest, i) {
                assert(up_arrow_at(bytes, i + 1));
            }
        }
        if next.escape == EscapeState::Escape && rest.len() >= 2 {
            assert(!up_arrow_at(bytes, 0));
        }
        lemma_run_no_recall(next, rest, hist);
    }
}

/// Without the up-arrow key no history entry is recalled: a read that starts
/// outside an escape sequence, with nothing recalled, and receives no
/// `ESC [ A` leaves the recall position unset.
pub proof fn law_edit_run_no_recall(st: EditorState, bytes: Seq<u8>, hist: Seq<Seq<u8>>)
    requires
        st.history_cursor is None,
        st.escape == EscapeState::Normal,
        forall|i: int| !#[trigger] up_arrow_at(bytes, i),
    ensures
        edit_run(st, bytes, hist).history_cursor is None,
{
    lemma_run_no_recall(st, bytes, hist);
}

/// A byte that is neither an editing key nor printable changes nothing.
pub proof fn law_other_bytes_ignored(st: EditorState, b: u8, hist: Seq<Seq<u8>>)
    requires
        st.escape == EscapeState::Normal,
        b != KEY_CR && b != KEY_LF && b != KEY_BACKSPACE && b != KEY_DEL && b != KEY_ESC,
        !is_printable(b),
    ensures
        edit_step(st, b, hist) == (st, EditOutcome::Ignore),
{
}

/// The history after a submitted line is accepted: a blank line leaves it,
/// any other is recorded trimmed.
pub open spec fn history_after_accept(h: Seq<Seq<u8>>, line: Seq<u8>) -> Seq<Seq<u8>> {
    if trim_spaces(line).len() == 0 {
        h
    } else {
        history_after_push(h, trim_spaces(line))
    }
}

/// The history after a session accepts each line in turn.
pub open spec fn history_after_accepts(h: Seq<Seq<u8>>, lines: Seq<Seq<u8>>) -> Seq<Seq<u8>>
    decreases lines.len(),
{
    if lines.len() == 0 {
        h
    } else {
        history_after_accepts(history_after_accept(h, lines[0]), lines.drop_first())
    }
}

/// The history after recording each line in turn.
pub open spec fn history_after_pushes(h: Seq<Seq<u8>>, lines: Seq<Seq<u8>>) -> Seq<Seq<u8>>
    decreases lines.len(),
{
    if lines.len() == 0 {
        h
    } else {
        history_after_pushes(history_after_push(h, lines[0]), lines.drop_first())
    }
}

/// The lines of a session that run commands: each non-blank line, trimmed.
pub open spec fn commands_of(lines: Seq<Seq<u8>>) -> Seq<Seq<u8>>
    decreases lines.len(),
{
    if lines.len() == 0 {
        Seq::empty()
    } else {
        (if trim_spaces(lines[0]).len() == 0 {
            Seq::empty()
        } else {
            seq![trim_spaces(lines[0])]
        }) + commands_of(lines.drop_first())
    }
}

/// Over a session, the history is what recording each command line in turn
/// gives: blank lines are neither run nor recorded, and every other line is
/// recorded trimmed, in the order the lines came.
pub proof fn law_session_history(h: Seq<Seq<u8>>, lines: Seq<Seq<u8>>)
    ensures
        history_after_accepts(h, lines) == history_after_pushes(h, commands_of(lines)),
    decreases lines.len(),
{
    if lines.len() > 0 {
        let h1 = history_after_accept(h, lines[0]);
        law_session_history(h1, lines.drop_first());
        let rest = commands_of(lines.drop_first());
        if trim_spaces(lines[0]).len() == 0 {
            assert(commands_of(lines) =~= rest);
        } else {
            let c = seq![trim_spaces(lines[0])] + rest;
            assert(commands_of(lines) == c);
            assert(c[0] == trim_spaces(lines[0]));
            assert(c.drop_first() =~= rest);
        }
    }
}

} // verus!
