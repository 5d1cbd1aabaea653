//! Line-ending normalization of CLI output: a lone `\r` or `\n` goes out as
//! `\r\n`, while the pairs `\r\n` and `\n\r` go out as they are. A line ending
//! at the very end of a write is held back until the next write (or a flush)
//! shows whether it starts a pair.

use vstd::prelude::*;

verus! {

pub const CR: u8 = 0x0d;
pub const LF: u8 = 0x0a;

/// Bytes of one output chunk.
pub const TX_CHUNK_SIZE: usize = 128;

pub open spec fn is_newline_byte(b: u8) -> bool {
    b == CR || b == LF
}

pub open spec fn is_newline_pair_bytes(first: u8, second: u8) -> bool {
    (first == CR && second == LF) || (first == LF && second == CR)
}

pub fn is_newline(byte: u8) -> (r: bool)
    ensures
        r == is_newline_byte(byte),
{
    byte == CR || byte == LF
}

pub fn is_newline_pair(first: u8, second: u8) -> (r: bool)
    ensures
        r == is_newline_pair_bytes(first, second),
{
    (first == CR && second == LF) || (first == LF && second == CR)
}

/// What filling one chunk does: bytes of the input consumed, bytes emitted,
/// and the line ending held back afterwards.
pub struct Fill {
    pub consumed: nat,
    pub emitted: Seq<u8>,
    pub pending: Option<u8>,
}

pub open spec fn prepend(n: nat, e: Seq<u8>, f: Fill) -> Fill {
    Fill { consumed: f.consumed + n, emitted: e + f.emitted, pending: f.pending }
}

/// Normalizing `input` into at most `room` bytes, with nothing held back.
pub open spec fn fill_body(input: Seq<u8>, room: nat) -> Fill
    decreases input.len(),
{
    if input.len() == 0 {
        Fill { consumed: 0, emitted: Seq::empty(), pending: None }
    } else if is_newline_byte(input[0]) {
        if input.len() >= 2 {
            if room < 2 {
                Fill { consumed: 0, emitted: Seq::empty(), pending: None }
            } else if is_newline_pair_bytes(input[0], input[1]) {
                prepend(2, seq![input[0], input[1]], fill_body(input.skip(2), (room - 2) as nat))
            } else {
                prepend(1, seq![CR, LF], fill_body(input.drop_first(), (room - 2) as nat))
            }
        } else {
            Fill { consumed: 1, emitted: Seq::empty(), pending: Some(input[0]) }
        }
    } else if room < 1 {
        Fill { consumed: 0, emitted: Seq::empty(), pending: None }
    } else {
        prepend(1, seq![input[0]], fill_body(input.drop_first(), (room - 1) as nat))
    }
}

/// Normalizing `input` into at most `room` bytes after `pending` was held back.
pub open spec fn fill_spec(pending: Option<u8>, input: Seq<u8>, room: nat) -> Fill {
    match pending {
        Some(p) => if input.len() == 0 || room < 2 {
            Fill { consumed: 0, emitted: Seq::empty(), pending: Some(p) }
        } else if is_newline_pair_bytes(p, input[0]) {
            prepend(1, seq![p, input[0]], fill_body(input.drop_first(), (room - 2) as nat))
        } else {
            prepend(0, seq![CR, LF], fill_body(input, (room - 2) as nat))
        },
        None => fill_body(input, room),
    }
}

pub struct NewlineNormalizer {
    pending_newline: Option<u8>,
}

impl NewlineNormalizer {
    pub closed spec fn pending(&self) -> Option<u8> {
        self.pending_newline
    }

    pub fn new() -> (n: Self)
        ensures
            n.pending() is None,
    {
        NewlineNormalizer { pending_newline: None }
    }

    /// Takes the held-back line ending, if any: the caller then sends `\r\n`.
    pub fn take_pending(&mut self) -> (had: bool)
        ensures
            had == old(self).pending() is Some,
            final(self).pending() is None,
    {
        let had = self.pending_newline.is_some();
        self.pending_newline = None;
        had
    }

    fn fill_loop(input: &[u8], start: usize, out: &mut Vec<u8>, capacity: usize) -> (r: (usize, Option<u8>))
        requires
            start <= input@.len(),
            old(out)@.len() <= capacity,
        ensures
            ({
                let f = fill_body(input@.skip(start as int), (capacity - old(out)@.len()) as nat);
                &&& r.0 == start + f.consumed
                &&& final(out)@ == old(out)@ + f.emitted
                &&& r.1 == f.pending
            }),
    {
        let mut consumed = start;
        let ghost room0 = (capacity - out@.len()) as nat;
        let ghost target = fill_body(input@.skip(start as int), room0);
        let ghost out0 = out@;
        proof {
            assert(out@ =~= out0 + Seq::<u8>::empty());
        }
        while consumed < input.len()
            invariant
                start <= consumed <= input@.len(),
                out0 == old(out)@,
                out@.len() <= capacity,
                out0.len() <= capacity,
                room0 == capacity - out0.len(),
                target == fill_body(input@.skip(start as int), room0),
                out0 + out@.subrange(out0.len() as int, out@.len() as int) == out@,
                out@.len() >= out0.len(),
                target == prepend(
                    (consumed - start) as nat,
                    out@.subrange(out0.len() as int, out@.len() as int),
                    fill_body(input@.skip(consumed as int), (capacity - out@.len()) as nat),
                ),
            decreases input@.len() - consumed,
        {
            let ghost rest = input@.skip(consumed as int);
            let ghost room = (capacity - out@.len()) as nat;
            let ghost emitted = out@.subrange(out0.len() as int, out@.len() as int);
            let byte = input[consumed];
            assert(rest[0] == byte);
            if is_newline(byte) {
                if consumed + 1 < input.len() {
                    let next = input[consumed + 1];
                    assert(rest[1] == next);
                    if is_newline_pair(byte, next) {
                        if capacity - out.len() < 2 {
                            return (consumed, None);
                        }
                        out.push(byte);
                        out.push(next);
                        proof {
                            assert(rest.skip(2) =~= input@.skip(consumed + 2));
                            assert(out@.subrange(out0.len() as int, out@.len() as int)
                                =~= emitted + seq![byte, next]);
                            let x = fill_body(rest.skip(2), (room - 2) as nat);
                            assert(emitted + (seq![byte, next] + x.emitted) =~= (emitted + seq![byte, next]) + x.emitted);
                        }
                        consumed = consumed + 2;
                        continue;
                    }
                    if capacity - out.len() < 2 {
                        return (consumed, None);
                    }
                    out.push(CR);
                    out.push(LF);
                    proof {
                        assert(rest.drop_first() =~= input@.skip(consumed + 1));
                        assert(out@.subrange(out0.len() as int, out@.len() as int)
                            =~= emitted + seq![CR, LF]);
                        let x = fill_body(rest.drop_first(), (room - 2) as nat);
                        assert(emitted + (seq![CR, LF] + x.emitted) =~= (emitted + seq![CR, LF]) + x.emitted);
                    }
                    consumed = consumed + 1;
                    continue;
                }
                proof {
                    assert(rest.len() == 1);
                    assert(input@.skip(consumed + 1) =~= Seq::<u8>::empty());
                }
                return (consumed + 1, Some(byte));
            }
            if out.len() >= capacity {
                return (consumed, None);
            }
            out.push(byte);
            proof {
                assert(rest.drop_first() =~= input@.skip(consumed + 1));
                assert(out@.subrange(out0.len() as int, out@.len() as int) =~= emitted + seq![byte]);
                let x = fill_body(rest.drop_first(), (room - 1) as nat);
                assert(emitted + (seq![byte] + x.emitted) =~= (emitted + seq![byte]) + x.emitted);
            }
            consumed = consumed + 1;
        }
        proof {
            assert(input@.skip(consumed as int) =~= Seq::<u8>::empty());
        }
        (consumed, None)
    }

    /// Normalizes a prefix of `input` into `out`, which holds at most
    /// `capacity` bytes, and returns how many input bytes it consumed.
    pub fn fill_normalized_chunk(&mut self, input: &[u8], out: &mut Vec<u8>, capacity: usize) -> (consumed: usize)
        requires
            old(out)@.len() <= capacity,
        ensures
            ({
                let f = fill_spec(old(self).pending(), input@, (capacity - old(out)@.len()) as nat);
                &&& consumed == f.consumed
                &&& final(out)@ == old(out)@ + f.emitted
                &&& final(self).pending() == f.pending
            }),
    {
        match self.pending_newline {
            Some(pending) => {
                if input.len() == 0 || capacity - out.len() < 2 {
                    return 0;
                }
                let first = input[0];
                if is_newline_pair(pending, first) {
                    out.push(pending);
                    out.push(first);
                    self.pending_newline = None;
                    proof {
                        assert(input@.skip(1) =~= input@.drop_first());
                    }
                    let ghost mid = out@;
                    let (consumed, p) = Self::fill_loop(input, 1, out, capacity);
                    self.pending_newline = p;
                    proof {
                        assert(out@ =~= old(out)@ + (seq![pending, first] + (out@.subrange(mid.len() as int, out@.len() as int))));
                    }
                    consumed
                } else {
                    out.push(CR);
                    out.push(LF);
                    self.pending_newline = None;
                    proof {
                        assert(input@.skip(0) =~= input@);
                    }
                    let ghost mid = out@;
                    let (consumed, p) = Self::fill_loop(input, 0, out, capacity);
                    self.pending_newline = p;
                    proof {
                        assert(out@ =~= old(out)@ + (seq![CR, LF] + (out@.subrange(mid.len() as int, out@.len() as int))));
                    }
                    consumed
                }
            },
            None => {
                proof {
                    assert(input@.skip(0) =~= input@);
                }
                let (consumed, p) = Self::fill_loop(input, 0, out, capacity);
                self.pending_newline = p;
                consumed
            },
        }
    }
}

proof fn lemma_fill_body_bounds(input: Seq<u8>, room: nat)
    ensures
        fill_body(input, room).emitted.len() <= room,
        fill_body(input, room).consumed <= input.len(),
    decreases input.len(),
{
    if input.len() > 0 {
        if is_newline_byte(input[0]) {
            if input.len() >= 2 && room >= 2 {
                if is_newline_pair_bytes(input[0], input[1]) {
                    lemma_fill_body_bounds(input.skip(2), (room - 2) as nat);
                } else {
                    lemma_fill_body_bounds(input.drop_first(), (room - 2) as nat);
                }
            }
        } else if room >= 1 {
            lemma_fill_body_bounds(input.drop_first(), (room - 1) as nat);
        }
    }
}

/// A chunk never overflows its room nor consumes more than it is given, and
/// with room for a line ending it always makes progress on pending input:
/// it consumes input or emits bytes.
pub proof fn law_fill_progress(pending: Option<u8>, input: Seq<u8>, room: nat)
    ensures
        fill_spec(pending, input, room).emitted.len() <= room,
        fill_spec(pending, input, room).consumed <= input.len(),
        room >= 2 && input.len() > 0 ==> fill_spec(pending, input, room).consumed > 0 || fill_spec(
            pending,
            input,
            room,
        ).emitted.len() > 0,
{
    lemma_fill_body_bounds(input, room);
    if input.len() > 0 {
        lemma_fill_body_bounds(input.drop_first(), (room - 2) as nat);
        lemma_fill_body_bounds(input, (room - 2) as nat);
    }
}

/// The bytes of a text other than line-ending bytes.
pub open spec fn text_of(s: Seq<u8>) -> Seq<u8>
    decreases s.len(),
{
    if s.len() == 0 {
        Seq::empty()
    } else {
        (if is_newline_byte(s[0]) { Seq::empty() } else { seq![s[0]] }) + text_of(s.drop_first())
    }
}

/// How many line endings a text holds, read from the start: `\r\n` or
/// `\n\r` is one ending, a lone `\r` or `\n` is one.
pub open spec fn endings(s: Seq<u8>) -> nat
    decreases s.len(),
{
    if s.len() == 0 {
        0
    } else if is_newline_byte(s[0]) {
        if s.len() >= 2 && is_newline_pair_bytes(s[0], s[1]) {
            1 + endings(s.skip(2))
        } else {
            1 + endings(s.drop_first())
        }
    } else {
        endings(s.drop_first())
    }
}

/// Every line-ending byte of a text is part of a `\r\n` or `\n\r` pair.
pub open spec fn paired(s: Seq<u8>) -> bool
    decreases s.len(),
{
    if s.len() == 0 {
        true
    } else if is_newline_byte(s[0]) {
        s.len() >= 2 && is_newline_pair_bytes(s[0], s[1]) && paired(s.skip(2))
    } else {
        paired(s.drop_first())
    }
}

/// The held-back line ending as bytes.
pub open spec fn held(p: Option<u8>) -> Seq<u8> {
    match p {
        Some(b) => seq![b],
        None => Seq::empty(),
    }
}

proof fn lemma_text_concat(a: Seq<u8>, b: Seq<u8>)
    ensures
        text_of(a + b) == text_of(a) + text_of(b),
    decreases a.len(),
{
    if a.len() == 0 {
        assert(a + b =~= b);
        assert(Seq::<u8>::empty() + text_of(b) =~= text_of(b));
    } else {
        assert((a + b).drop_first() =~= a.drop_first() + b);
        lemma_text_concat(a.drop_first(), b);
        assert((a + b)[0] == a[0]);
        let h: Seq<u8> = if is_newline_byte(a[0]) { Seq::empty() } else { seq![a[0]] };
        assert(h + (text_of(a.drop_first()) + text_of(b)) =~= (h + text_of(a.drop_first())) + text_of(b));
    }
}

proof fn lemma_pair_facts(x: u8, y: u8, r: Seq<u8>)
    requires
        is_newline_pair_bytes(x, y),
    ensures
        text_of(seq![x, y] + r) == text_of(r),
        endings(seq![x, y] + r) == 1 + endings(r),
        paired(seq![x, y] + r) == paired(r),
{
    let s = seq![x, y] + r;
    assert(s[0] == x && s[1] == y);
    assert(s.skip(2) =~= r);
    assert(s.drop_first().drop_first() =~= r);
    assert(s.drop_first()[0] == y);
    assert(text_of(s) == Seq::<u8>::empty() + text_of(s.drop_first()));
    assert(text_of(s.drop_first()) == Seq::<u8>::empty() + text_of(r));
    assert(Seq::<u8>::empty() + text_of(r) =~= text_of(r));
}

proof fn lemma_plain_facts(x: u8, r: Seq<u8>)
    requires
        !is_newline_byte(x),
    ensures
        text_of(seq![x] + r) == seq![x] + text_of(r),
        endings(seq![x] + r) == endings(r),
        paired(seq![x] + r) == paired(r),
{
    let s = seq![x] + r;
    assert(s[0] == x);
    assert(s.drop_first() =~= r);
}

/// What `fill_body` does, stated over what goes in and comes out.
proof fn lemma_fill_body_keeps(input: Seq<u8>, room: nat)
    ensures
        ({
            let f = fill_body(input, room);
            let s = input.take(f.consumed as int);
            &&& f.consumed <= input.len()
            &&& text_of(f.emitted) == text_of(s)
            &&& endings(f.emitted) + held(f.pending).len() == endings(s)
            &&& paired(f.emitted)
            &&& f.pending matches Some(b) ==> is_newline_byte(b) && f.consumed == input.len() && input.last() == b
        }),
    decreases input.len(),
{
    let f = fill_body(input, room);
    if input.len() == 0 {
        assert(input.take(0) =~= Seq::<u8>::empty());
    } else if is_newline_byte(input[0]) {
        if input.len() >= 2 {
            if room < 2 {
                assert(input.take(0) =~= Seq::<u8>::empty());
            } else if is_newline_pair_bytes(input[0], input[1]) {
                let rest = input.skip(2);
                let g = fill_body(rest, (room - 2) as nat);
                lemma_fill_body_keeps(rest, (room - 2) as nat);
                let s = input.take(f.consumed as int);
                assert(s =~= seq![input[0], input[1]] + rest.take(g.consumed as int));
                lemma_pair_facts(input[0], input[1], rest.take(g.consumed as int));
                lemma_pair_facts(input[0], input[1], g.emitted);
                assert(f.emitted == seq![input[0], input[1]] + g.emitted);
                if g.pending is Some {
                    assert(input.last() == rest.last());
                }
            } else {
                let rest = input.drop_first();
                let g = fill_body(rest, (room - 2) as nat);
                lemma_fill_body_keeps(rest, (room - 2) as nat);
                let s = input.take(f.consumed as int);
                let t = rest.take(g.consumed as int);
                assert(s =~= seq![input[0]] + t);
                assert(f.emitted == seq![CR, LF] + g.emitted);
                lemma_pair_facts(CR, LF, g.emitted);
                assert(s[0] == input[0]);
                assert(s.drop_first() =~= t);
                if s.len() >= 2 {
                    assert(s[1] == input[1]);
                }
                assert(text_of(s) == Seq::<u8>::empty() + text_of(t));
                assert(Seq::<u8>::empty() + text_of(t) =~= text_of(t));
                if g.pending is Some {
                    assert(input.last() == rest.last());
                }
            }
        } else {
            let s = input.take(1);
            assert(s =~= seq![input[0]]);
            assert(s.drop_first() =~= Seq::<u8>::empty());
            assert(text_of(s) == Seq::<u8>::empty() + text_of(s.drop_first()));
            assert(text_of(Seq::<u8>::empty()) == Seq::<u8>::empty());
            assert(Seq::<u8>::empty() + Seq::<u8>::empty() =~= Seq::<u8>::empty());
        }
    } else if room < 1 {
        assert(input.take(0) =~= Seq::<u8>::empty());
    } else {
        let rest = input.drop_first();
        let g = fill_body(rest, (room - 1) as nat);
        lemma_fill_body_keeps(rest, (room - 1) as nat);
        let s = input.take(f.consumed as int);
        let t = rest.take(g.consumed as int);
        assert(s =~= seq![input[0]] + t);
        lemma_plain_facts(input[0], t);
        lemma_plain_facts(input[0], g.emitted);
        assert(f.emitted == seq![input[0]] + g.emitted);
        if g.pending is Some {
            assert(input.last() == rest.last());
        }
    }
}

/// No text and no line ending is lost or invented: what a chunk emits holds
/// exactly the other bytes of the input it consumed, in order, and as many
/// line endings as that input together with the ending held before, less
/// the one it holds back now (a pair counts once, also when it straddles two
/// writes). Every line ending goes out as a `\r\n` or `\n\r` pair, and
/// only a line-ending byte is ever held back. So a held ending that the next
/// write does not pair goes out as `\r\n` before that write's bytes.
pub proof fn law_fill_keeps_text_and_endings(pending: Option<u8>, input: Seq<u8>, room: nat)
    requires
        pending matches Some(b) ==> is_newline_byte(b),
    ensures
        ({
            let f = fill_spec(pending, input, room);
            let s = held(pending) + input.take(f.consumed as int);
            &&& text_of(f.emitted) == text_of(s)
            &&& endings(f.emitted) + held(f.pending).len() == endings(s)
            &&& paired(f.emitted)
            &&& f.pending matches Some(b) ==> is_newline_byte(b)
            &&& (pending matches Some(p) && input.len() > 0 && room >= 2 && !is_newline_pair_bytes(p, input[0]))
                ==> f.emitted.take(2) == seq![CR, LF]
        }),
{
    let f = fill_spec(pending, input, room);
    match pending {
        None => {
            lemma_fill_body_keeps(input, room);
            assert(held(pending) + input.take(f.consumed as int) =~= input.take(f.consumed as int));
        },
        Some(p) => {
            if input.len() == 0 || room < 2 {
                let s = held(pending) + input.take(0);
                assert(s =~= seq![p]);
                assert(s.drop_first() =~= Seq::<u8>::empty());
                assert(text_of(s) == Seq::<u8>::empty() + text_of(s.drop_first()));
                assert(text_of(Seq::<u8>::empty()) == Seq::<u8>::empty());
                assert(Seq::<u8>::empty() + Seq::<u8>::empty() =~= Seq::<u8>::empty());
            } else if is_newline_pair_bytes(p, input[0]) {
                let rest = input.drop_first();
                let g = fill_body(rest, (room - 2) as nat);
                lemma_fill_body_keeps(rest, (room - 2) as nat);
                let s = held(pending) + input.take(f.consumed as int);
                assert(s =~= seq![p, input[0]] + rest.take(g.consumed as int));
                lemma_pair_facts(p, input[0], rest.take(g.consumed as int));
                lemma_pair_facts(p, input[0], g.emitted);
                assert(f.emitted == seq![p, input[0]] + g.emitted);
            } else {
                let g = fill_body(input, (room - 2) as nat);
                lemma_fill_body_keeps(input, (room - 2) as nat);
                let t = input.take(g.consumed as int);
                let s = held(pending) + t;
                assert(s =~= seq![p] + t);
                assert(f.emitted == seq![CR, LF] + g.emitted);
                lemma_pair_facts(CR, LF, g.emitted);
                assert(s[0] == p);
                assert(s.drop_first() =~= t);
                if t.len() >= 1 {
                    assert(s[1] == input[0]);
                }
                assert(text_of(s) == Seq::<u8>::empty() + text_of(t));
                assert(Seq::<u8>::empty() + text_of(t) =~= text_of(t));
                assert(f.emitted.take(2) =~= seq![CR, LF]);
            }
        },
    }
}

/// Normalizing a whole stream at once: `\r\n` and `\n\r` stay as they
/// are, a lone `\r` or `\n` becomes `\r\n`, other bytes are copied.
pub open spec fn normalized(s: Seq<u8>) -> Seq<u8>
    decreases s.len(),
{
    if s.len() == 0 {
        Seq::empty()
    } else if is_newline_byte(s[0]) {
        if s.len() >= 2 && is_newline_pair_bytes(s[0], s[1]) {
            seq![s[0], s[1]] + normalized(s.skip(2))
        } else {
            seq![CR, LF] + normalized(s.drop_first())
        }
    } else {
        seq![s[0]] + normalized(s.drop_first())
    }
}

/// `s` without the held-back ending at its end.
pub open spec fn without_held(s: Seq<u8>, pending: Option<u8>) -> Seq<u8> {
    s.take(s.len() - held(pending).len())
}

proof fn lemma_fill_body_normalized(input: Seq<u8>, room: nat)
    ensures
        ({
            let f = fill_body(input, room);
            let s = input.take(f.consumed as int);
            &&& held(f.pending).len() <= s.len()
            &&& f.emitted == normalized(without_held(s, f.pending))
        }),
    decreases input.len(),
{
    let f = fill_body(input, room);
    lemma_fill_body_keeps(input, room);
    if input.len() == 0 {
        assert(input.take(0).take(0) =~= Seq::<u8>::empty());
    } else if is_newline_byte(input[0]) {
        if input.len() >= 2 {
            if room < 2 {
                assert(input.take(0).take(0) =~= Seq::<u8>::empty());
            } else if is_newline_pair_bytes(input[0], input[1]) {
                let rest = input.skip(2);
                let g = fill_body(rest, (room - 2) as nat);
                lemma_fill_body_normalized(rest, (room - 2) as nat);
                let t = rest.take(g.consumed as int);
                let tw = without_held(t, g.pending);
                let s = input.take(f.consumed as int);
                assert(s =~= seq![input[0], input[1]] + t);
                let sw = without_held(s, f.pending);
                assert(sw =~= seq![input[0], input[1]] + tw);
                assert(sw[0] == input[0] && sw[1] == input[1]);
                assert(sw.skip(2) =~= tw);
            } else {
                let rest = input.drop_first();
                let g = fill_body(rest, (room - 2) as nat);
                lemma_fill_body_normalized(rest, (room - 2) as nat);
                let t = rest.take(g.consumed as int);
                let tw = without_held(t, g.pending);
                let s = input.take(f.consumed as int);
                assert(s =~= seq![input[0]] + t);
                let sw = without_held(s, f.pending);
                assert(sw =~= seq![input[0]] + tw);
                assert(sw[0] == input[0]);
                assert(sw.drop_first() =~= tw);
                if sw.len() >= 2 {
                    assert(sw[1] == input[1]);
                }
            }
        } else {
            assert(input.take(1).take(0) =~= Seq::<u8>::empty());
        }
    } else if room < 1 {
        assert(input.take(0).take(0) =~= Seq::<u8>::empty());
    } else {
        let rest = input.drop_first();
        let g = fill_body(rest, (room - 1) as nat);
        lemma_fill_body_normalized(rest, (room - 1) as nat);
        let t = rest.take(g.consumed as int);
        let tw = without_held(t, g.pending);
        let s = input.take(f.consumed as int);
        assert(s =~= seq![input[0]] + t);
        let sw = without_held(s, f.pending);
        assert(sw =~= seq![input[0]] + tw);
        assert(sw[0] == input[0]);
        assert(sw.drop_first() =~= tw);
    }
}

/// Writing in chunks gives what normalizing the whole stream gives: the
/// bytes a chunk emits are the normalization of the ending held before and
/// the input it consumed, short of the ending it now holds back. So a lone
/// `\r` or `\n` goes out as `\r\n`, a pair as it is, even when a write ends
/// between the two bytes of a pair.
pub proof fn law_fill_is_normalization(pending: Option<u8>, input: Seq<u8>, room: nat)
    requires
        pending matches Some(b) ==> is_newline_byte(b),
    ensures
        ({
            let f = fill_spec(pending, input, room);
            let s = held(pending) + input.take(f.consumed as int);
            &&& held(f.pending).len() <= s.len()
            &&& f.emitted == normalized(without_held(s, f.pending))
        }),
{
    let f = fill_spec(pending, input, room);
    match pending {
        None => {
            lemma_fill_body_normalized(input, room);
            assert(held(pending) + input.take(f.consumed as int) =~= input.take(f.consumed as int));
        },
        Some(p) => {
            if input.len() == 0 || room < 2 {
                let s = held(pending) + input.take(0);
                assert(s.take(0) =~= Seq::<u8>::empty());
            } else if is_newline_pair_bytes(p, input[0]) {
                let rest = input.drop_first();
                let g = fill_body(rest, (room - 2) as nat);
                lemma_fill_body_normalized(rest, (room - 2) as nat);
                lemma_fill_body_keeps(rest, (room - 2) as nat);
                let t = rest.take(g.consumed as int);
                let tw = without_held(t, g.pending);
                let s = held(pending) + input.take(f.consumed as int);
                assert(s =~= seq![p, input[0]] + t);
                let sw = without_held(s, f.pending);
                assert(sw =~= seq![p, input[0]] + tw);
                assert(sw[0] == p && sw[1] == input[0]);
                assert(sw.skip(2) =~= tw);
            } else {
                let g = fill_body(input, (room - 2) as nat);
                lemma_fill_body_normalized(input, (room - 2) as nat);
                lemma_fill_body_keeps(input, (room - 2) as nat);
                let t = input.take(g.consumed as int);
                let tw = without_held(t, g.pending);
                let s = held(pending) + t;
                let sw = without_held(s, f.pending);
                assert(sw =~= seq![p] + tw);
                assert(sw[0] == p);
                assert(sw.drop_first() =~= tw);
                if sw.len() >= 2 {
                    assert(sw[1] == input[0]);
                }
            }
        },
    }
}

} // verus!
