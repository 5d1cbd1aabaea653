//! Per-session command history: the most recent lines, oldest first, within a
//! budget of [`HISTORY_SIZE_BYTES`] bytes (each line counts its length plus one)
//! and at most [`HISTORY_MAX_ENTRIES`] lines. The oldest lines are dropped
//! first to make room in the byte budget; when the history already holds its
//! most lines after that, the new line is not recorded.

use vstd::prelude::*;
use crate::text::bytes_to_vec;

verus! {

/// Longest line, in bytes, that the editor keeps.
pub const MAX_LINE_SIZE: usize = 96;

/// Byte budget of the history.
pub const HISTORY_SIZE_BYTES: usize = 256;

/// Most lines the history keeps.
pub const HISTORY_MAX_ENTRIES: usize = 16;

/// A printable ASCII byte: a graphic character or a space.
pub open spec fn is_printable(b: u8) -> bool {
    0x20 <= b <= 0x7e
}

pub open spec fn all_printable(s: Seq<u8>) -> bool {
    forall|i: int| 0 <= i < s.len() ==> is_printable(#[trigger] s[i])
}

/// Bytes that a list of lines takes from the budget.
pub open spec fn history_bytes(entries: Seq<Seq<u8>>) -> nat
    decreases entries.len(),
{
    if entries.len() == 0 {
        0
    } else {
        history_bytes(entries.drop_last()) + entries.last().len() + 1
    }
}

/// The lines left after dropping the oldest until `needed` more bytes fit.
pub open spec fn evict_for(entries: Seq<Seq<u8>>, needed: nat) -> Seq<Seq<u8>>
    decreases entries.len(),
{
    if entries.len() > 0 && history_bytes(entries) + needed > HISTORY_SIZE_BYTES {
        evict_for(entries.drop_first(), needed)
    } else {
        entries
    }
}

/// The lines after recording `line`: empty and over-long lines are ignored;
/// otherwise the oldest lines make room and the line is appended when the
/// history then holds fewer than the most lines.
pub open spec fn history_after_push(entries: Seq<Seq<u8>>, line: Seq<u8>) -> Seq<Seq<u8>> {
    if line.len() == 0 || line.len() > MAX_LINE_SIZE {
        entries
    } else {
        let kept = evict_for(entries, line.len() + 1);
        if kept.len() < HISTORY_MAX_ENTRIES {
            kept.push(line)
        } else {
            kept
        }
    }
}

pub struct History {
    entries: Vec<Vec<u8>>,
    bytes_used: usize,
}

proof fn lemma_bytes_drop_first(entries: Seq<Seq<u8>>)
    requires
        entries.len() > 0,
    ensures
        history_bytes(entries) == entries[0].len() + 1 + history_bytes(entries.drop_first()),
    decreases entries.len(),
{
    if entries.len() > 1 {
        lemma_bytes_drop_first(entries.drop_last());
        assert(entries.drop_last().drop_first() =~= entries.drop_first().drop_last());
    } else {
        assert(entries.drop_first() =~= Seq::<Seq<u8>>::empty());
        assert(entries.drop_last() =~= Seq::<Seq<u8>>::empty());
    }
}

impl History {
    /// The lines held, oldest first.
    pub closed spec fn view(&self) -> Seq<Seq<u8>> {
        self.entries@.map_values(|e: Vec<u8>| e@)
    }

    pub closed spec fn wf(&self) -> bool {
        &&& self.entries@.len() <= HISTORY_MAX_ENTRIES
        &&& self.bytes_used == history_bytes(self.view())
        &&& self.bytes_used <= HISTORY_SIZE_BYTES
        &&& forall|i: int| 0 <= i < self.entries@.len() ==> {
            &&& 0 < (#[trigger] self.entries@[i])@.len() <= MAX_LINE_SIZE
            &&& all_printable(self.entries@[i]@)
        }
    }

    pub fn new() -> (h: Self)
        ensures
            h.wf(),
            h.view() == Seq::<Seq<u8>>::empty(),
    {
        let h = History { entries: Vec::new(), bytes_used: 0 };
        proof {
            assert(h.view() =~= Seq::<Seq<u8>>::empty());
        }
        h
    }

    pub fn len(&self) -> (n: usize)
        ensures
            n == self.view().len(),
    {
        self.entries.len()
    }

    /// Bytes the held lines take from the budget.
    pub fn bytes_used(&self) -> (n: usize)
        requires
            self.wf(),
        ensures
            n == history_bytes(self.view()),
    {
        self.bytes_used
    }

    pub fn get(&self, index: usize) -> (r: Option<&Vec<u8>>)
        requires
            self.wf(),
        ensures
            index < self.view().len() ==> (r matches Some(e) && e@ == self.view()[index as int]),
            index >= self.view().len() ==> r is None,
            r matches Some(e) ==> e@.len() <= MAX_LINE_SIZE && all_printable(e@),
    {
        if index < self.entries.len() {
            Some(&self.entries[index])
        } else {
            None
        }
    }

    /// Records a submitted line.
    pub fn push(&mut self, line: &[u8])
        requires
            old(self).wf(),
            all_printable(line@),
        ensures
            final(self).wf(),
            final(self).view() == history_after_push(old(self).view(), line@),
    {
        if line.len() == 0 {
            return;
        }
        if line.len() > MAX_LINE_SIZE {
            return;
        }
        let item: Vec<u8> = bytes_to_vec(line);
        let needed = item.len() + 1;
        let ghost start = self.view();
        while self.bytes_used + needed > HISTORY_SIZE_BYTES && self.entries.len() > 0
            invariant
                self.wf(),
                needed == line@.len() + 1,
                needed <= MAX_LINE_SIZE + 1,
                evict_for(start, needed as nat) == evict_for(self.view(), needed as nat),
            decreases self.entries@.len(),
        {
            let ghost before = self.view();
            let removed = self.entries.remove(0);
            proof {
                lemma_bytes_drop_first(before);
                assert(self.view() =~= before.drop_first());
                assert(before[0] == removed@);
            }
            self.bytes_used = self.bytes_used - (removed.len() + 1);
        }
        let ghost kept = self.view();
        proof {
            assert(evict_for(kept, needed as nat) == kept);
        }
        if self.entries.len() < HISTORY_MAX_ENTRIES {
            self.entries.push(item);
            proof {
                assert(self.view() =~= kept.push(line@));
                assert(self.view().drop_last() =~= kept);
            }
            self.bytes_used = self.bytes_used + needed;
        }
    }
}

/// The history never holds more than its byte budget or its most lines, and
/// every line it holds is a non-empty line the editor could have submitted.
pub proof fn law_history_bounded(h: History)
    requires
        h.wf(),
    ensures
        history_bytes(h.view()) <= HISTORY_SIZE_BYTES,
        h.view().len() <= HISTORY_MAX_ENTRIES,
        forall|i: int| 0 <= i < h.view().len() ==> 0 < (#[trigger] h.view()[i]).len() <= MAX_LINE_SIZE,
{
    assert forall|i: int| 0 <= i < h.view().len() implies 0 < (#[trigger] h.view()[i]).len()
        <= MAX_LINE_SIZE by {
        assert(h.view()[i] == h.entries@[i]@);
    }
}

proof fn lemma_evict_suffix(entries: Seq<Seq<u8>>, needed: nat)
    ensures
        exists|k: int| 0 <= k <= entries.len() && evict_for(entries, needed) == entries.skip(k),
    decreases entries.len(),
{
    if entries.len() > 0 && history_bytes(entries) + needed > HISTORY_SIZE_BYTES {
        lemma_evict_suffix(entries.drop_first(), needed);
        let k = choose|k: int|
            0 <= k <= entries.drop_first().len() && evict_for(entries.drop_first(), needed)
                == entries.drop_first().skip(k);
        assert(entries.drop_first().skip(k) =~= entries.skip(k + 1));
    } else {
        assert(entries.skip(0) =~= entries);
    }
}

/// Recording a line removes only the oldest lines, from the front, keeps the
/// rest in their order, and puts the line, when it is recorded, last. Empty
/// and over-long lines leave the history as it was; a line is left out only
/// when the history still holds its most lines after making room.
pub proof fn law_push_keeps_order(entries: Seq<Seq<u8>>, line: Seq<u8>)
    ensures
        line.len() == 0 || line.len() > MAX_LINE_SIZE ==> history_after_push(entries, line) == entries,
        0 < line.len() <= MAX_LINE_SIZE ==> exists|k: int|
            0 <= k <= entries.len() && {
                ||| history_after_push(entries, line) == entries.skip(k).push(line)
                ||| history_after_push(entries, line) == entries.skip(k) && entries.skip(k).len()
                    >= HISTORY_MAX_ENTRIES
            },
{
    if 0 < line.len() <= MAX_LINE_SIZE {
        let needed: nat = line.len() + 1;
        lemma_evict_suffix(entries, needed);
        let k = choose|k: int| 0 <= k <= entries.len() && evict_for(entries, needed) == entries.skip(k);
        assert(0 <= k <= entries.len());
    }
}

} // verus!
