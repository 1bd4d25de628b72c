//! The split of an index range into consecutive bounded windows, and the
//! state of a run that walks them in ascending order.
use vstd::prelude::*;
use crate::migrate::{FetchedBlock, SyncError, TargetRow, all_decoded, migrate_window, reports_first_failure, rows_match};

verus! {

/// The number of blocks a run reads and writes at a time.
pub const WINDOW_SIZE: u64 = 1000;

/// The block indices `first ..= last`.
#[derive(Clone, Copy, Debug, PartialEq, Eq, Structural)]
pub struct Window {
    pub first: u64,
    pub last: u64,
}

/// Window `w` holds index `idx`.
pub open spec fn holds(w: Window, idx: int) -> bool {
    w.first <= idx <= w.last
}

/// Some window of `ws` holds `idx`.
pub open spec fn held(ws: Seq<Window>, idx: int) -> bool {
    exists|j: int| 0 <= j < ws.len() && holds(#[trigger] ws[j], idx)
}

/// `ws` covers `start ..= end` (nothing when `end == start - 1`) with
/// non-empty windows that follow each other without gap or overlap, each of
/// `size` indices but the last, which may be shorter.
pub open spec fn tiling(ws: Seq<Window>, start: int, end: int, size: int) -> bool {
    &&& ws.len() == 0 ==> end == start - 1
    &&& ws.len() > 0 ==> ws[0].first == start && ws.last().last == end
    &&& forall|j: int|
        0 <= j < ws.len() ==> (#[trigger] ws[j]).first <= ws[j].last && ws[j].last - ws[j].first
            < size
    &&& forall|j: int|
        0 <= j < ws.len() - 1 ==> ws[j + 1].first == (#[trigger] ws[j]).last + 1 && ws[j].last
            - ws[j].first + 1 == size
}

/// The last index of the window that starts at `first`, cut at `last`.
pub open spec fn window_end(first: int, last: int, size: int) -> int {
    if last - first < size {
        last
    } else {
        first + size - 1
    }
}

proof fn lemma_tiling_ordered(ws: Seq<Window>, start: int, end: int, size: int, a: int, b: int)
    requires
        tiling(ws, start, end, size),
        0 <= a < b < ws.len(),
    ensures
        ws[a].last < ws[b].first,
    decreases b - a,
{
    if a + 1 < b {
        lemma_tiling_ordered(ws, start, end, size, a + 1, b);
        assert(ws[a + 1].first <= ws[a + 1].last);
    }
    assert(ws[a + 1].first == ws[a].last + 1);
}

proof fn lemma_tiling_finds(ws: Seq<Window>, start: int, end: int, size: int, idx: int) -> (j: int)
    requires
        tiling(ws, start, end, size),
        start <= idx <= end,
    ensures
        0 <= j < ws.len(),
        holds(ws[j], idx),
    decreases ws.len(),
{
    if idx <= ws[0].last {
        assert(ws[0].first <= ws[0].last);
        0
    } else {
        let rest = ws.subrange(1, ws.len() as int);
        assert(ws.len() > 1) by {
            if ws.len() == 1 {
                assert(ws.last() == ws[0]);
            }
        }
        assert(ws[1].first == ws[0].last + 1);
        assert(rest.last() == ws.last());
        assert forall|k: int| 0 <= k < rest.len() implies (#[trigger] rest[k]).first <= rest[k].last
            && rest[k].last - rest[k].first < size by {
            assert(rest[k] == ws[k + 1]);
        }
        assert forall|k: int| 0 <= k < rest.len() - 1 implies rest[k + 1].first == (
        #[trigger] rest[k]).last + 1 && rest[k].last - rest[k].first + 1 == size by {
            assert(rest[k] == ws[k + 1]);
            assert(rest[k + 1] == ws[k + 2]);
        }
        let j = lemma_tiling_finds(rest, ws[0].last + 1, end, size, idx);
        assert(rest[j] == ws[j + 1]);
        j + 1
    }
}

/// Windows that tile `start ..= last` hold each index of that range in
/// exactly one window, stay inside the range and ascend, whatever the window
/// size: a run that reads and writes each window once touches every index
/// once.
pub proof fn lemma_tiling_covers_each_index_once(
    ws: Seq<Window>,
    start: u64,
    last: u64,
    size: u64,
)
    requires
        tiling(ws, start as int, last as int, size as int),
        start <= last,
    ensures
        forall|idx: int| start <= idx <= last ==> #[trigger] held(ws, idx),
        forall|idx: int, a: int, b: int|
            0 <= a < ws.len() && 0 <= b < ws.len() && #[trigger] holds(ws[a], idx) && #[trigger] holds(
                ws[b],
                idx,
            ) ==> a == b,
        forall|j: int| 0 <= j < ws.len() ==> start <= (#[trigger] ws[j]).first && ws[j].last <= last,
        forall|a: int, b: int| 0 <= a < b < ws.len() ==> (#[trigger] ws[a]).last < (#[trigger] ws[b]).first,
{
    assert forall|idx: int| start <= idx <= last implies #[trigger] held(ws, idx) by {
        let j = lemma_tiling_finds(ws, start as int, last as int, size as int, idx);
    }
    assert forall|a: int, b: int| 0 <= a < b < ws.len() implies (#[trigger] ws[a]).last < (#[trigger] ws[b]).first by {
        lemma_tiling_ordered(ws, start as int, last as int, size as int, a, b);
    }
    assert forall|j: int| 0 <= j < ws.len() implies start <= (#[trigger] ws[j]).first && ws[j].last <= last by {
        if j > 0 {
            lemma_tiling_ordered(ws, start as int, last as int, size as int, 0, j);
        }
        if j < ws.len() - 1 {
            lemma_tiling_ordered(ws, start as int, last as int, size as int, j, ws.len() - 1);
        }
    }
    assert forall|idx: int, a: int, b: int|
        0 <= a < ws.len() && 0 <= b < ws.len() && #[trigger] holds(ws[a], idx) && #[trigger] holds(
            ws[b],
            idx,
        ) implies a == b by {
        if a < b {
            lemma_tiling_ordered(ws, start as int, last as int, size as int, a, b);
        } else if b < a {
            lemma_tiling_ordered(ws, start as int, last as int, size as int, b, a);
        }
    }
}

/// A run over `start ..= last`: the windows handed out so far, where the
/// next one starts, and whether the run has ended or failed.
pub struct Migration {
    next: u64,
    last: u64,
    size: u64,
    exhausted: bool,
    failed: bool,
    start: Ghost<u64>,
    issued: Ghost<Seq<Window>>,
}

impl Migration {
    /// The first index of the run.
    pub closed spec fn first_index(&self) -> u64 {
        self.start@
    }

    /// The last index of the run.
    pub closed spec fn last_index(&self) -> u64 {
        self.last
    }

    /// The largest number of indices in one window.
    pub closed spec fn window_size(&self) -> u64 {
        self.size
    }

    /// The index that the next window starts at, while windows remain.
    pub closed spec fn next_index(&self) -> u64 {
        self.next
    }

    /// The windows handed out so far, in order.
    pub closed spec fn windows(&self) -> Seq<Window> {
        self.issued@
    }

    /// Every window of the range has been handed out.
    pub closed spec fn exhausted(&self) -> bool {
        self.exhausted
    }

    /// A window failed; the run hands out no more.
    pub closed spec fn failed(&self) -> bool {
        self.failed
    }

    /// The windows handed out tile the range up to where the next one
    /// starts, or all of it once exhausted; all are full but a last one that
    /// reaches the end of the range.
    pub closed spec fn wf(&self) -> bool {
        &&& self.size > 0
        &&& self.start@ <= self.last
        &&& !self.exhausted ==> self.start@ <= self.next <= self.last && tiling(
            self.issued@,
            self.start@ as int,
            self.next - 1,
            self.size as int,
        )
        &&& !self.exhausted && self.issued@.len() > 0 ==> self.issued@.last().last
            - self.issued@.last().first + 1 == self.size
        &&& self.exhausted ==> tiling(
            self.issued@,
            self.start@ as int,
            self.last as int,
            self.size as int,
        )
    }

    /// A run over `start ..= last` in windows of at most `size` indices.
    pub fn new(start: u64, last: u64, size: u64) -> (r: Migration)
        requires
            start <= last,
            size > 0,
        ensures
            r.wf(),
            r.first_index() == start,
            r.last_index() == last,
            r.window_size() == size,
            r.next_index() == start,
            r.windows() == Seq::<Window>::empty(),
            !r.exhausted(),
            !r.failed(),
    {
        Migration {
            next: start,
            last,
            size,
            exhausted: false,
            failed: false,
            start: Ghost(start),
            issued: Ghost(Seq::empty()),
        }
    }

    /// The next window of the run, which starts where the previous one
    /// ended and holds `size` indices or the rest of the range; `None` once
    /// the range is covered or a window has failed.
    pub fn next_window(&mut self) -> (r: Option<Window>)
        requires
            old(self).wf(),
        ensures
            final(self).wf(),
            final(self).first_index() == old(self).first_index(),
            final(self).last_index() == old(self).last_index(),
            final(self).window_size() == old(self).window_size(),
            final(self).failed() == old(self).failed(),
            r is None <==> old(self).exhausted() || old(self).failed(),
            r is None ==> final(self).windows() == old(self).windows() && final(self).exhausted()
                == old(self).exhausted(),
            r matches Some(w) ==> {
                &&& w.first == old(self).next_index()
                &&& w.last == window_end(
                    old(self).next_index() as int,
                    old(self).last_index() as int,
                    old(self).window_size() as int,
                )
                &&& final(self).windows() == old(self).windows().push(w)
                &&& final(self).exhausted() == (w.last == old(self).last_index())
                &&& !final(self).exhausted() ==> final(self).next_index() == w.last + 1
            },
            r is None && !final(self).failed() ==> tiling(
                final(self).windows(),
                final(self).first_index() as int,
                final(self).last_index() as int,
                final(self).window_size() as int,
            ),
    {
        if self.exhausted || self.failed {
            return None;
        }
        let first = self.next;
        let w_last = if self.last - first < self.size {
            self.last
        } else {
            first + (self.size - 1)
        };
        let w = Window { first, last: w_last };
        let ghost old_issued = self.issued@;
        proof {
            let ws = old_issued.push(w);
            assert(ws.last() == w);
            assert forall|j: int| 0 <= j < ws.len() implies (#[trigger] ws[j]).first <= ws[j].last
                && ws[j].last - ws[j].first < self.size by {
                if j < old_issued.len() {
                    assert(ws[j] == old_issued[j]);
                }
            }
            assert forall|j: int| 0 <= j < ws.len() - 1 implies ws[j + 1].first == (
            #[trigger] ws[j]).last + 1 && ws[j].last - ws[j].first + 1 == self.size by {
                assert(ws[j] == old_issued[j]);
                if j + 1 < old_issued.len() {
                    assert(ws[j + 1] == old_issued[j + 1]);
                } else {
                    assert(old_issued[j] == old_issued.last());
                }
            }
        }
        self.issued = Ghost(self.issued@.push(w));
        if w_last == self.last {
            self.exhausted = true;
        } else {
            self.next = w_last + 1;
        }
        Some(w)
    }

    /// The rows of the window just read, as `migrate_window` gives them. A
    /// window whose blocks did not all decode fails the run: it yields its
    /// first bad record, and `next_window` hands out nothing after it.
    pub fn accept(&mut self, fetched: &Vec<FetchedBlock>) -> (r: Result<Vec<TargetRow>, SyncError>)
        requires
            old(self).wf(),
        ensures
            final(self).wf(),
            final(self).first_index() == old(self).first_index(),
            final(self).last_index() == old(self).last_index(),
            final(self).window_size() == old(self).window_size(),
            final(self).next_index() == old(self).next_index(),
            final(self).windows() == old(self).windows(),
            final(self).exhausted() == old(self).exhausted(),
            final(self).failed() == (old(self).failed() || r is Err),
            r is Ok <==> all_decoded(fetched@),
            r matches Ok(rows) ==> rows_match(rows@, fetched@),
            r is Err ==> exists|i: int| reports_first_failure(r->Err_0, fetched@, i),
    {
        let r = migrate_window(fetched);
        if r.is_err() {
            self.failed = true;
        }
        r
    }

    /// Once exhausted, the windows handed out tile the whole range.
    pub proof fn lemma_exhausted_tiles(&self)
        requires
            self.wf(),
            self.exhausted(),
        ensures
            self.first_index() <= self.last_index(),
            self.window_size() > 0,
            tiling(
                self.windows(),
                self.first_index() as int,
                self.last_index() as int,
                self.window_size() as int,
            ),
    {
    }

    /// Every window was handed out and none failed.
    pub fn is_complete(&self) -> (r: bool)
        ensures
            r == (self.exhausted() && !self.failed()),
    {
        self.exhausted && !self.failed
    }
}

} // verus!
