//! HTTP on the display's control channel: the request this side sends, where
//! the body of a reply starts, and when a reply has been read completely.

use vstd::prelude::*;
use vstd::string::StringSliceAdditionalSpecFns;
use vstd::utf8::{decode_utf8, valid_utf8};
use crate::display::json::{content_length_of, find_content_length};
use crate::text::{push_text, str_from_utf8, string_of};

verus! {

/// Capacity, in bytes, of a request.
pub const HTTP_REQUEST_CAP: usize = 160;

/// Bytes of a request besides its path.
pub const HTTP_REQUEST_FIXED_LEN: usize = 60;

/// Milliseconds to wait for the headers of a reply.
pub const HEADER_TIMEOUT_MS: u64 = 1500;

/// Milliseconds to wait for more of a reply once its headers are in.
pub const BODY_TIMEOUT_MS: u64 = 50;

/// The GET request for `path` on the display's control address.
pub open spec fn get_request_text(path: Seq<char>) -> Seq<char> {
    "GET "@ + path + " HTTP/1.1\r\nHost: 192.168.4.1\r\nConnection: keep-alive\r\n\r\n"@
}

/// The GET request for `path`, when it fits the request buffer.
pub fn http_get_request(path: &str) -> (r: Option<String>)
    ensures
        r is Some <==> path.spec_bytes().len() + HTTP_REQUEST_FIXED_LEN <= HTTP_REQUEST_CAP,
        r matches Some(s) ==> s@ == get_request_text(path@),
{
    if path.as_bytes().len() > HTTP_REQUEST_CAP - HTTP_REQUEST_FIXED_LEN {
        return None;
    }
    let mut s = string_of("GET ");
    push_text(&mut s, path);
    push_text(&mut s, " HTTP/1.1\r\nHost: 192.168.4.1\r\nConnection: keep-alive\r\n\r\n");
    Some(s)
}

/// The end of the headers, `\r\n\r\n`, starts at byte `i`.
pub open spec fn header_end_at(b: Seq<u8>, i: int) -> bool {
    0 <= i && i + 4 <= b.len() && b[i] == 0x0d && b[i + 1] == 0x0a && b[i + 2] == 0x0d && b[i + 3] == 0x0a
}

/// Where the headers of a reply end, as a byte index of the first `\r\n\r\n`.
#[verifier::opaque]
pub open spec fn header_end(b: Seq<u8>) -> Option<int> {
    if exists|i: int| header_end_at(b, i) {
        Some(choose|i: int| header_end_at(b, i) && forall|j: int| 0 <= j < i ==> !#[trigger] header_end_at(b, j))
    } else {
        None
    }
}

/// Finds the first `\r\n\r\n` in `b[..len]`.
pub fn find_header_end(b: &[u8], len: usize) -> (r: Option<usize>)
    requires
        len <= b@.len(),
    ensures
        r is None <==> header_end(b@.take(len as int)) is None,
        r matches Some(k) ==> header_end(b@.take(len as int)) == Some(k as int) && k + 4 <= len,
{
    reveal(header_end);
    let ghost t = b@.take(len as int);
    let mut i: usize = 0;
    while len >= 4 && i <= len - 4
        invariant
            len <= b@.len(),
            t == b@.take(len as int),
            forall|j: int| 0 <= j < i ==> !#[trigger] header_end_at(t, j),
        decreases len - i,
    {
        if b[i] == 0x0d && b[i + 1] == 0x0a && b[i + 2] == 0x0d && b[i + 3] == 0x0a {
            proof {
                reveal(header_end);
                assert(header_end_at(t, i as int));
                let c = choose|c: int| header_end_at(t, c) && forall|j: int| 0 <= j < c ==> !#[trigger] header_end_at(t, j);
                if c < i {
                } else if c > i {
                    assert(!header_end_at(t, i as int));
                }
            }
            return Some(i);
        }
        i = i + 1;
    }
    proof {
        reveal(header_end);
        assert forall|j: int| !header_end_at(t, j) by {
            if j >= i {
            }
        }
    }
    None
}

/// Where the body of a received reply lies in `rx[..total]`: after the first
/// `\r\n\r\n`, or all of it when there is none; nothing when the bytes are not UTF-8.
pub open spec fn body_range(rx: Seq<u8>) -> Option<(nat, nat)> {
    if !valid_utf8(rx) {
        None
    } else {
        match header_end(rx) {
            Some(i) => Some(((i + 4) as nat, rx.len())),
            None => Some((0, rx.len())),
        }
    }
}

/// The byte range of the body of the reply in `rx[..total]`.
pub fn response_body_range(rx: &[u8], total: usize) -> (r: Option<(usize, usize)>)
    requires
        total <= rx@.len(),
    ensures
        match body_range(rx@.take(total as int)) {
            Some((a, b)) => r == Some((a as usize, b as usize)),
            None => r is None,
        },
{
    let prefix = &rx[0..total];
    proof {
        assert(prefix@ =~= rx@.take(total as int));
    }
    if str_from_utf8(prefix).is_none() {
        return None;
    }
    match find_header_end(rx, total) {
        Some(i) => Some((i + 4, total)),
        None => Some((0, total)),
    }
}

/// How reading a reply goes on after an event.
#[derive(Clone, Copy, Debug, PartialEq, Eq, Structural)]
pub enum ReadOutcome {
    /// Read more.
    Continue,
    /// The reply is complete: the bytes read so far are all of it.
    Complete,
    /// The read failed.
    Failed,
}

/// Where reading a reply stands.
pub struct ReaderState {
    pub capacity: nat,
    pub total_read: nat,
    pub headers_parsed: bool,
    pub body_start: nat,
    pub expected_body_len: Option<usize>,
}

/// The declared body length of the headers `rx[..end]`.
pub open spec fn declared_body_len(rx: Seq<u8>, end: int) -> Option<usize> {
    if valid_utf8(rx.take(end)) {
        content_length_of(decode_utf8(rx.take(end)))
    } else {
        None
    }
}

/// Receiving `n` more bytes, which the buffer `rx` now holds after the earlier ones.
pub open spec fn read_step(st: ReaderState, rx: Seq<u8>, n: nat) -> (ReaderState, ReadOutcome) {
    if n == 0 {
        (st, ReadOutcome::Complete)
    } else {
        let total = st.total_read + n;
        let st1 = ReaderState { total_read: total, ..st };
        if total >= st.capacity {
            (st1, ReadOutcome::Complete)
        } else if !st.headers_parsed && valid_utf8(rx.take(total as int)) && header_end(rx.take(total as int)) is Some {
            let d = header_end(rx.take(total as int))->0;
            (
                ReaderState {
                    headers_parsed: true,
                    body_start: (d + 4) as nat,
                    expected_body_len: declared_body_len(rx, d),
                    ..st1
                },
                ReadOutcome::Continue,
            )
        } else {
            (st1, ReadOutcome::Continue)
        }
    }
}

/// Reads a reply into a buffer of fixed capacity: waits long for the headers,
/// then briefly for more of the body, and stops once the declared body length
/// has arrived, the buffer is full or the peer closes.
pub struct HttpResponseReader {
    capacity: usize,
    total_read: usize,
    headers_parsed: bool,
    body_start: usize,
    expected_body_len: Option<usize>,
}

impl HttpResponseReader {
    pub closed spec fn state(&self) -> ReaderState {
        ReaderState {
            capacity: self.capacity as nat,
            total_read: self.total_read as nat,
            headers_parsed: self.headers_parsed,
            body_start: self.body_start as nat,
            expected_body_len: self.expected_body_len,
        }
    }

    pub closed spec fn wf(&self) -> bool {
        &&& self.total_read < self.capacity
        &&& self.body_start <= self.total_read
    }

    pub fn new(capacity: usize) -> (r: Self)
        requires
            capacity > 0,
        ensures
            r.wf(),
            r.state() == (ReaderState {
                capacity: capacity as nat,
                total_read: 0,
                headers_parsed: false,
                body_start: 0,
                expected_body_len: None,
            }),
    {
        HttpResponseReader { capacity, total_read: 0, headers_parsed: false, body_start: 0, expected_body_len: None }
    }

    /// Bytes received so far.
    pub fn total_read(&self) -> (n: usize)
        ensures
            n == self.state().total_read,
    {
        self.total_read
    }

    /// How long to wait for the next bytes, or nothing when the declared body
    /// has fully arrived.
    pub fn wait_ms(&self) -> (r: Option<u64>)
        requires
            self.wf(),
        ensures
            r is None <==> (self.state().headers_parsed && (self.state().expected_body_len matches Some(e)
                && self.state().total_read - self.state().body_start >= e)),
            r matches Some(t) ==> t == if self.state().headers_parsed { BODY_TIMEOUT_MS } else { HEADER_TIMEOUT_MS },
    {
        if self.headers_parsed {
            if let Some(expected) = self.expected_body_len {
                if self.total_read - self.body_start >= expected {
                    return None;
                }
            }
            Some(BODY_TIMEOUT_MS)
        } else {
            Some(HEADER_TIMEOUT_MS)
        }
    }

    /// `n` more bytes arrived; `rx` is the whole buffer, holding every byte read.
    pub fn on_data(&mut self, rx: &[u8], n: usize) -> (out: ReadOutcome)
        requires
            old(self).wf(),
            rx@.len() == old(self).state().capacity,
            old(self).state().total_read + n <= rx@.len(),
        ensures
            (final(self).state(), out) == read_step(old(self).state(), rx@, n as nat),
            out is Continue ==> final(self).wf(),
    {
        if n == 0 {
            return ReadOutcome::Complete;
        }
        self.total_read = self.total_read + n;
        if self.total_read >= self.capacity {
            return ReadOutcome::Complete;
        }
        if !self.headers_parsed {
            let prefix = &rx[0..self.total_read];
            proof {
                assert(prefix@ =~= rx@.take(self.total_read as int));
            }
            if str_from_utf8(prefix).is_some() {
                if let Some(delim) = find_header_end(rx, self.total_read) {
                    self.headers_parsed = true;
                    self.body_start = delim + 4;
                    let head = &rx[0..delim];
                    proof {
                        assert(head@ =~= rx@.take(delim as int));
                    }
                    self.expected_body_len = match str_from_utf8(head) {
                        Some(h) => find_content_length(h),
                        None => None,
                    };
                }
            }
        }
        ReadOutcome::Continue
    }

    /// The wait for bytes ran out: a reply whose headers are in is taken as complete.
    pub fn on_timeout(&self) -> (out: ReadOutcome)
        ensures
            out == if self.state().headers_parsed { ReadOutcome::Complete } else { ReadOutcome::Failed },
    {
        if self.headers_parsed {
            ReadOutcome::Complete
        } else {
            ReadOutcome::Failed
        }
    }
}

proof fn lemma_first_header_end(b: Seq<u8>, k: int)
    requires
        0 <= k,
        forall|j: int| 0 <= j < k ==> !#[trigger] header_end_at(b, j),
        exists|i: int| header_end_at(b, i),
    ensures
        exists|i: int| header_end_at(b, i) && forall|j: int| 0 <= j < i ==> !#[trigger] header_end_at(b, j),
    decreases b.len() - k,
{
    if header_end_at(b, k) {
        assert(header_end_at(b, k) && forall|j: int| 0 <= j < k ==> !#[trigger] header_end_at(b, j));
    } else {
        let w = choose|i: int| header_end_at(b, i);
        assert(w != k);
        if w < k {
            assert(!header_end_at(b, w));
        }
        assert(k < b.len());
        lemma_first_header_end(b, k + 1);
    }
}

/// The end of the headers lies within the bytes.
proof fn lemma_header_end_bound(b: Seq<u8>)
    ensures
        header_end(b) matches Some(d) ==> 0 <= d && d + 4 <= b.len(),
{
    reveal(header_end);
    if exists|i: int| header_end_at(b, i) {
        lemma_first_header_end(b, 0);
    }
}

/// Each read counts exactly the bytes it brought and never past the buffer;
/// once the headers are parsed, where the body starts and its declared length
/// stay as they were; a read never fails by itself, and a reply goes on being
/// read only while the buffer has room.
pub proof fn law_read_step(st: ReaderState, rx: Seq<u8>, n: nat)
    requires
        rx.len() == st.capacity,
        st.total_read < st.capacity,
        st.body_start <= st.total_read,
        st.total_read + n <= rx.len(),
    ensures
        ({
            let (next, out) = read_step(st, rx, n);
            &&& next.total_read == st.total_read + n
            &&& next.total_read <= st.capacity
            &&& next.capacity == st.capacity
            &&& out != ReadOutcome::Failed
            &&& out == ReadOutcome::Continue ==> next.total_read < next.capacity && next.body_start
                <= next.total_read
            &&& st.headers_parsed ==> next.headers_parsed && next.body_start == st.body_start
                && next.expected_body_len == st.expected_body_len
            &&& n == 0 ==> out == ReadOutcome::Complete
        }),
{
    let total = st.total_read + n;
    if n > 0 && total < st.capacity && !st.headers_parsed && valid_utf8(rx.take(total as int))
        && header_end(rx.take(total as int)) is Some {
        lemma_header_end_bound(rx.take(total as int));
    }
}

/// What a wait for bytes of a reply brings.
pub enum ReadEvent {
    /// This many bytes.
    Data(nat),
    /// Nothing within the wait.
    Timeout,
    /// The read failed.
    Error,
}

/// Whether the declared body has fully arrived, so no more is read.
pub open spec fn body_complete(st: ReaderState) -> bool {
    st.headers_parsed && (st.expected_body_len matches Some(e) && st.total_read - st.body_start >= e)
}

/// One turn of reading: none once the declared body is in, else the event's
/// effect.
pub open spec fn reader_event(st: ReaderState, rx: Seq<u8>, e: ReadEvent) -> (ReaderState, ReadOutcome) {
    if body_complete(st) {
        (st, ReadOutcome::Complete)
    } else {
        match e {
            ReadEvent::Data(n) => read_step(st, rx, n),
            ReadEvent::Timeout => (st, if st.headers_parsed { ReadOutcome::Complete } else { ReadOutcome::Failed }),
            ReadEvent::Error => (st, ReadOutcome::Failed),
        }
    }
}

/// Reading a reply through a run of events, `rx` holding every byte that
/// arrives: it stops at the first turn that completes or fails.
pub open spec fn reader_run(st: ReaderState, rx: Seq<u8>, events: Seq<ReadEvent>) -> (ReaderState, ReadOutcome)
    decreases events.len(),
{
    if events.len() == 0 {
        (st, ReadOutcome::Continue)
    } else {
        let (next, out) = reader_event(st, rx, events[0]);
        if out == ReadOutcome::Continue {
            reader_run(next, rx, events.drop_first())
        } else {
            (next, out)
        }
    }
}

/// The bytes the events bring.
pub open spec fn data_total(events: Seq<ReadEvent>) -> nat
    decreases events.len(),
{
    if events.len() == 0 {
        0
    } else {
        (match events[0] {
            ReadEvent::Data(n) => n,
            _ => 0,
        }) + data_total(events.drop_first())
    }
}

pub open spec fn has_error(events: Seq<ReadEvent>) -> bool {
    exists|i: int| 0 <= i < events.len() && (#[trigger] events[i]) is Error
}

/// Over a whole reply: the bytes stay within the buffer; a read fails only on
/// a read error or on a wait that runs out before the headers are in, so once
/// the headers are in only a read error fails it; a reply completes only with
/// its headers in, a full buffer or a read of nothing; and the headers, once
/// parsed, stay as they were.
pub proof fn law_reader_run(st: ReaderState, rx: Seq<u8>, events: Seq<ReadEvent>)
    requires
        rx.len() == st.capacity,
        st.total_read < st.capacity,
        st.body_start <= st.total_read,
        st.total_read + data_total(events) <= rx.len(),
    ensures
        ({
            let (fin, out) = reader_run(st, rx, events);
            &&& fin.total_read <= st.capacity
            &&& out == ReadOutcome::Failed ==> has_error(events) || !fin.headers_parsed
            &&& st.headers_parsed && !has_error(events) ==> out != ReadOutcome::Failed
            &&& out == ReadOutcome::Complete ==> fin.headers_parsed || fin.total_read >= st.capacity || exists|i: int|
                0 <= i < events.len() && events[i] == ReadEvent::Data(0)
            &&& st.headers_parsed ==> fin.headers_parsed && fin.body_start == st.body_start
                && fin.expected_body_len == st.expected_body_len
            &&& out == ReadOutcome::Continue ==> fin.total_read < fin.capacity && fin.body_start <= fin.total_read
        }),
    decreases events.len(),
{
    if events.len() > 0 {
        let e = events[0];
        let rest = events.drop_first();
        assert(data_total(events) == (match e {
            ReadEvent::Data(n) => n,
            _ => 0,
        }) + data_total(rest));
        if let ReadEvent::Data(n) = e {
            law_read_step(st, rx, n);
        }
        let (next, out) = reader_event(st, rx, e);
        if out == ReadOutcome::Continue {
            law_reader_run(next, rx, rest);
            if has_error(rest) {
                let i = choose|i: int| 0 <= i < rest.len() && (#[trigger] rest[i]) is Error;
                assert(events[i + 1] == rest[i]);
            }
            if exists|i: int| 0 <= i < rest.len() && rest[i] == ReadEvent::Data(0) {
                let i = choose|i: int| 0 <= i < rest.len() && rest[i] == ReadEvent::Data(0);
                assert(events[i + 1] == rest[i]);
            }
            if has_error(events) && !has_error(rest) {
                let i = choose|i: int| 0 <= i < events.len() && (#[trigger] events[i]) is Error;
                if i > 0 {
                    assert(rest[i - 1] == events[i]);
                }
            }
        } else {
            if e is Error {
                assert(events[0] is Error);
            }
            if e == ReadEvent::Data(0) {
                assert(events[0] == ReadEvent::Data(0));
            }
        }
    }
}

} // verus!
