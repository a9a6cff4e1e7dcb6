//! The collector: marking from the roots, and the two ways to reclaim what
//! was not marked. `collect` compacts the heap and moves the survivors;
//! `collect_garbage` leaves them in place and frees the rest.

use crate::context::{forward, forward_all, forward_handle, DEAD};
use crate::handle::Gc;
use crate::heap::{contents, GcCell, GcState, Heap, HeapView};
use crate::reach::{
    edge, forwarding_table, holds, lemma_mark_one, lemma_marks_are_reach, lemma_rank_prefix,
    lemma_reachable_live, lemma_seed_reachable, lemma_step_reachable, lemma_survivors, live, rank,
    reach_marks, reachable, survivors, unmarked, Cells,
};
use crate::value::{Value, ValueView};
use vstd::prelude::*;

verus! {

/// The handles among `handles` that name a live cell, in order.
pub open spec fn live_handles(cells: Cells, handles: Seq<usize>) -> Seq<usize>
    decreases handles.len(),
{
    if handles.len() == 0 {
        handles
    } else if live(cells, handles.last() as int) {
        live_handles(cells, handles.drop_last()).push(handles.last())
    } else {
        live_handles(cells, handles.drop_last())
    }
}

/// The cells after compaction: the marked cells in their old order, each
/// with its handles forwarded.
pub open spec fn compacted(cells: Cells, marks: Seq<bool>, table: Seq<usize>, n: int) -> Cells {
    Seq::new(
        survivors(marks, n).len(),
        |k: int| Some(cells[survivors(marks, n)[k]].unwrap().forwarded(table)),
    )
}

/// The live cells below `n` that are not marked, in increasing order.
pub open spec fn unmarked_live(cells: Cells, marks: Seq<bool>, n: int) -> Seq<usize>
    decreases n,
{
    if n <= 0 || n > cells.len() {
        Seq::<usize>::empty()
    } else if cells[n - 1].is_some() && !marks[n - 1] {
        unmarked_live(cells, marks, n - 1).push((n - 1) as usize)
    } else {
        unmarked_live(cells, marks, n - 1)
    }
}

/// The cells after a sweep: the marked cells as they were, every other cell
/// dead.
pub open spec fn swept(cells: Cells, marks: Seq<bool>) -> Cells {
    Seq::new(
        cells.len(),
        |i: int|
            if marks[i] {
                cells[i]
            } else {
                None
            },
    )
}

impl HeapView {
    /// The seeds of a collection: the pinned roots, then the handles that the
    /// caller holds.
    pub open spec fn seeds(self, context: Seq<usize>) -> Seq<usize> {
        self.roots + context
    }

    /// For each cell, whether a collection with these context handles keeps
    /// it.
    pub open spec fn marks(self, context: Seq<usize>) -> Seq<bool> {
        reach_marks(self.cells, self.seeds(context))
    }

    /// Where each cell goes in a compacting collection.
    pub open spec fn forwarding(self, context: Seq<usize>) -> Seq<usize> {
        forwarding_table(self.marks(context))
    }

    /// The heap after a compacting collection: the reachable cells in their
    /// old order with their handles forwarded, no dead cell, an empty
    /// free-list, and the roots that named live cells, forwarded.
    pub open spec fn collect(self, context: Seq<usize>) -> HeapView {
        HeapView {
            cells: compacted(
                self.cells,
                self.marks(context),
                self.forwarding(context),
                self.cells.len() as int,
            ),
            free: Seq::empty(),
            roots: forward_all(self.forwarding(context), live_handles(self.cells, self.roots)),
        }
    }

    /// The heap after a collection that moves nothing: the cells that cannot
    /// be reached from a pinned root are dead and stand on the free-list
    /// after the entries it had, in increasing order.
    pub open spec fn sweep(self) -> HeapView {
        HeapView {
            cells: swept(self.cells, self.marks(Seq::empty())),
            free: self.free + unmarked_live(
                self.cells,
                self.marks(Seq::empty()),
                self.cells.len() as int,
            ),
            roots: self.roots,
        }
    }
}

/// The forwarding table that a compacting collection returns: for each old
/// index, the new index of the cell, or [`DEAD`] where the cell was
/// reclaimed.
#[derive(Debug)]
pub struct Forwarding {
    pub(crate) table: Vec<usize>,
}

impl View for Forwarding {
    type V = Seq<usize>;

    open(crate) spec fn view(&self) -> Seq<usize> {
        self.table@
    }
}

impl Forwarding {
    /// The handle to the same cell after the collection; a handle to a cell
    /// that was reclaimed, or to no cell, becomes a handle to no cell.
    pub fn forward<T>(&self, handle: Gc<T>) -> (r: Gc<T>)
        ensures
            r.index == forward(self@, handle.index),
    {
        Gc::new(forward_handle(&self.table, handle.index))
    }

    /// The new index of the cell that was at `index`, if it survived.
    pub fn new_index(&self, index: usize) -> (r: Option<usize>)
        ensures
            r == if forward(self@, index) == usize::MAX {
                None
            } else {
                Some(forward(self@, index))
            },
    {
        let i = forward_handle(&self.table, index);
        if i == DEAD {
            None
        } else {
            Some(i)
        }
    }

    /// The table itself, indexed by old index.
    pub fn table(&self) -> (r: &Vec<usize>)
        ensures
            r@ == self@,
    {
        &self.table
    }
}

/// Marks the live cells that `handles` name and puts the newly marked ones
/// on the worklist.
fn mark_all(
    memory: &Vec<GcCell>,
    handles: &Vec<usize>,
    marks: &mut Vec<bool>,
    worklist: &mut Vec<usize>,
)
    requires
        old(marks)@.len() == memory@.len(),
    ensures
        final(marks)@.len() == old(marks)@.len(),
        forall|i: int|
            0 <= i < memory@.len() ==> (#[trigger] final(marks)@[i] <==> old(marks)@[i] || (live(
                contents(memory@),
                i,
            ) && holds(handles@, i))),
        final(worklist)@.len() >= old(worklist)@.len(),
        final(worklist)@.subrange(0, old(worklist)@.len() as int) == old(worklist)@,
        forall|k: int|
            old(worklist)@.len() <= k < final(worklist)@.len() ==> (#[trigger] final(worklist)@[k])
                < memory@.len() && final(marks)@[final(worklist)@[k] as int] && !old(marks)@[final(worklist)@[k] as int],
        forall|i: int|
            0 <= i < memory@.len() && #[trigger] final(marks)@[i] && !old(marks)@[i] ==> final(worklist)@.contains(i as usize),
        unmarked(final(marks)@) + final(worklist)@.len() == unmarked(old(marks)@) + old(worklist)@.len(),
{
    let n = handles.len();
    let ghost cells = contents(memory@);
    let mut k: usize = 0;
    while k < n
        invariant
            n == handles@.len(),
            k <= n,
            cells == contents(memory@),
            marks@.len() == old(marks)@.len(),
            marks@.len() == memory@.len(),
            forall|i: int|
                0 <= i < memory@.len() ==> (#[trigger] marks@[i] <==> old(marks)@[i] || (live(
                    cells,
                    i,
                ) && holds(handles@.subrange(0, k as int), i))),
            worklist@.len() >= old(worklist)@.len(),
            worklist@.subrange(0, old(worklist)@.len() as int) == old(worklist)@,
            forall|j: int|
                old(worklist)@.len() <= j < worklist@.len() ==> (#[trigger] worklist@[j])
                    < memory@.len() && marks@[worklist@[j] as int] && !old(marks)@[worklist@[j] as int],
            forall|i: int|
                0 <= i < memory@.len() && #[trigger] marks@[i] && !old(marks)@[i]
                    ==> worklist@.contains(i as usize),
            unmarked(marks@) + worklist@.len() == unmarked(old(marks)@) + old(worklist)@.len(),
        decreases n - k,
    {
        let h = handles[k];
        let ghost before_marks = marks@;
        let ghost before_work = worklist@;
        let ghost prefix = handles@.subrange(0, k as int);
        let ghost next = handles@.subrange(0, k + 1);
        proof {
            assert(next == prefix.push(h));
            assert forall|i: int| holds(next, i) <==> holds(prefix, i) || i == h as int by {
                if holds(prefix, i) {
                    let j = choose|j: int| 0 <= j < prefix.len() && #[trigger] prefix[j] as int == i;
                    assert(next[j] as int == i);
                }
                if i == h as int {
                    assert(next[k as int] as int == i);
                }
                if holds(next, i) {
                    let j = choose|j: int| 0 <= j < next.len() && #[trigger] next[j] as int == i;
                    if j < k {
                        assert(prefix[j] as int == i);
                    }
                }
            }
        }
        if h < memory.len() && !memory[h].dead && !marks[h] {
            marks.set(h, true);
            worklist.push(h);
            proof {
                lemma_mark_one(before_marks, h as int);
                assert(marks@ == before_marks.update(h as int, true));
                assert(worklist@.subrange(0, old(worklist)@.len() as int) == before_work.subrange(
                    0,
                    old(worklist)@.len() as int,
                ));
                assert forall|i: int|
                    0 <= i < memory@.len() && #[trigger] marks@[i] && !old(marks)@[i] implies worklist@.contains(i as usize) by {
                    if i == h as int {
                        assert(worklist@[before_work.len() as int] == h);
                    } else {
                        assert(before_marks[i]);
                        assert(before_work.contains(i as usize));
                        let j = choose|j: int|
                            0 <= j < before_work.len() && before_work[j] == i as usize;
                        assert(worklist@[j] == i as usize);
                    }
                }
                assert forall|j: int|
                    old(worklist)@.len() <= j < worklist@.len() implies (#[trigger] worklist@[j])
                    < memory@.len() && marks@[worklist@[j] as int] && !old(marks)@[worklist@[j] as int] by {
                    if j < before_work.len() {
                        assert(worklist@[j] == before_work[j]);
                    }
                }
            }
        }
        k = k + 1;
    }
    assert(handles@.subrange(0, n as int) == handles@);
}

/// The marks with which a collection starts: none set.
fn clear_marks(n: usize) -> (marks: Vec<bool>)
    ensures
        marks@.len() == n,
        forall|i: int| 0 <= i < n ==> !marks@[i],
        unmarked(marks@) == n,
{
    let mut marks: Vec<bool> = Vec::new();
    let mut i: usize = 0;
    while i < n
        invariant
            i <= n,
            marks@.len() == i,
            forall|j: int| 0 <= j < i ==> !marks@[j],
            rank(marks@, i as int) == 0,
        decreases n - i,
    {
        let ghost before = marks@;
        marks.push(false);
        proof {
            lemma_rank_prefix(before, marks@, i as int);
        }
        i = i + 1;
    }
    marks
}

/// What holds of the marks and the worklist while cells are being marked:
/// only reachable cells are marked, the worklist names marked cells, and a
/// marked cell that is not on the worklist points to marked cells only.
spec fn marking(cells: Cells, seeds: Seq<usize>, marks: Seq<bool>, worklist: Seq<usize>) -> bool {
    &&& marks.len() == cells.len()
    &&& forall|i: int| 0 <= i < marks.len() && #[trigger] marks[i] ==> reachable(cells, seeds, i)
    &&& forall|k: int|
        0 <= k < worklist.len() ==> (#[trigger] worklist[k]) < marks.len()
            && marks[worklist[k] as int]
    &&& forall|i: int, j: int|
        0 <= i < marks.len() && marks[i] && #[trigger] edge(cells, i, j) ==> marks[j]
            || worklist.contains(i as usize)
}

/// Marking the cells that the last cell of the worklist points to, and
/// putting the newly marked ones in its place, keeps what holds while cells
/// are being marked.
proof fn lemma_marking_step(
    cells: Cells,
    seeds: Seq<usize>,
    m0: Seq<bool>,
    w0: Seq<usize>,
    children: Seq<usize>,
    m1: Seq<bool>,
    w1: Seq<usize>,
)
    requires
        w0.len() > 0,
        cells.len() <= usize::MAX,
        marking(cells, seeds, m0, w0),
        live(cells, w0.last() as int),
        children == cells[w0.last() as int].unwrap().handles(),
        m1.len() == m0.len(),
        forall|x: int|
            0 <= x < cells.len() ==> (#[trigger] m1[x] <==> m0[x] || (live(cells, x) && holds(
                children,
                x,
            ))),
        w1.len() >= w0.len() - 1,
        w1.subrange(0, w0.len() - 1) == w0.drop_last(),
        forall|k: int|
            w0.len() - 1 <= k < w1.len() ==> (#[trigger] w1[k]) < cells.len() && m1[w1[k] as int]
                && !m0[w1[k] as int],
        forall|x: int|
            0 <= x < cells.len() && #[trigger] m1[x] && !m0[x] ==> w1.contains(x as usize),
    ensures
        marking(cells, seeds, m1, w1),
{
    let i = w0.last();
    let popped = w0.drop_last();
    assert(m0[i as int]);
    assert forall|x: int| 0 <= x < m1.len() && #[trigger] m1[x] implies reachable(
        cells,
        seeds,
        x,
    ) by {
        if !m0[x] {
            assert(edge(cells, i as int, x));
            lemma_step_reachable(cells, seeds, i as int, x);
        }
    }
    assert forall|k: int| 0 <= k < w1.len() implies (#[trigger] w1[k]) < m1.len() && m1[w1[k] as int] by {
        if k < popped.len() {
            assert(w1[k] == popped[k]);
            assert(popped[k] == w0[k]);
            assert(m0[w0[k] as int]);
        }
    }
    assert forall|x: int, j: int|
        0 <= x < m1.len() && m1[x] && #[trigger] edge(cells, x, j) implies m1[j] || w1.contains(
        x as usize,
    ) by {
        if x == i as int {
            assert(holds(children, j));
        } else if m0[x] {
            if !m0[j] {
                assert(w0.contains(x as usize));
                let k = choose|k: int| 0 <= k < w0.len() && w0[k] == x as usize;
                assert(k < popped.len());
                assert(popped[k] == w0[k]);
                assert(w1[k] == popped[k]);
            }
        }
    }
}

impl Heap {
    /// For each cell, whether it can be reached from a pinned root or from
    /// one of the `context` handles.
    pub(crate) fn mark_bits(&self, context: &Vec<usize>) -> (marks: Vec<bool>)
        ensures
            marks@ == self@.marks(context@),
    {
        let n = self.memory.len();
        let ghost cells = self@.cells;
        let ghost seeds = self@.seeds(context@);
        let mut marks = clear_marks(n);
        let mut worklist: Vec<usize> = Vec::new();
        let ghost m0 = marks@;
        mark_all(&self.memory, &self.roots, &mut marks, &mut worklist);
        let ghost m1 = marks@;
        let ghost w1 = worklist@;
        mark_all(&self.memory, context, &mut marks, &mut worklist);
        proof {
            assert forall|i: int| 0 <= i < marks@.len() && #[trigger] marks@[i] implies reachable(
                cells,
                seeds,
                i,
            ) by {
                if m1[i] {
                    assert(holds(self.roots@, i));
                    let k = choose|k: int|
                        0 <= k < self.roots@.len() && #[trigger] self.roots@[k] as int == i;
                    assert(seeds[k] == self.roots@[k]);
                    lemma_seed_reachable(cells, seeds, self.roots@[k]);
                } else {
                    assert(holds(context@, i));
                    let k = choose|k: int|
                        0 <= k < context@.len() && #[trigger] context@[k] as int == i;
                    assert(seeds[self.roots@.len() + k] == context@[k]);
                    lemma_seed_reachable(cells, seeds, context@[k]);
                }
            }
            assert forall|k: int| 0 <= k < worklist@.len() implies (#[trigger] worklist@[k])
                < marks@.len() && marks@[worklist@[k] as int] by {
                if k < w1.len() {
                    assert(w1 == worklist@.subrange(0, w1.len() as int));
                    assert(worklist@[k] == w1[k]);
                    assert(m1[w1[k] as int]);
                }
            }
            assert forall|i: int, j: int|
                0 <= i < marks@.len() && marks@[i] && #[trigger] edge(
                    cells,
                    i,
                    j,
                ) implies marks@[j] || worklist@.contains(i as usize) by {
                if m1[i] {
                    assert(w1.contains(i as usize));
                    let k = choose|k: int| 0 <= k < w1.len() && w1[k] == i as usize;
                    assert(w1 == worklist@.subrange(0, w1.len() as int));
                    assert(worklist@[k] == w1[k]);
                }
            }
            assert(marking(cells, seeds, marks@, worklist@));
        }
        while worklist.len() > 0
            invariant
                n == self.memory@.len(),
                cells == self@.cells,
                seeds == self@.seeds(context@),
                marking(cells, seeds, marks@, worklist@),
                forall|s: int|
                    0 <= s < seeds.len() && live(cells, seeds[s] as int) ==> marks@[seeds[s] as int],
            decreases unmarked(marks@) + worklist@.len(),
        {
            let ghost before_marks = marks@;
            let ghost before_work = worklist@;
            let i = worklist.pop().unwrap();
            let ghost popped = worklist@;
            let mut children: Vec<usize> = Vec::new();
            proof {
                assert(i == before_work[before_work.len() - 1]);
                assert(before_marks[i as int]);
                lemma_reachable_live(cells, seeds, i as int);
            }
            self.memory[i].value.trace(&mut children);
            assert(children@ == cells[i as int].unwrap().handles()) by {
                assert(Seq::<usize>::empty() + self.memory@[i as int].value@.handles()
                    =~= self.memory@[i as int].value@.handles());
            }
            mark_all(&self.memory, &children, &mut marks, &mut worklist);
            proof {
                lemma_survivors(marks@, n as int);
                lemma_survivors(before_marks, n as int);
                assert(popped == before_work.drop_last());
                lemma_marking_step(
                    cells,
                    seeds,
                    before_marks,
                    before_work,
                    children@,
                    marks@,
                    worklist@,
                );
            }
        }
        proof {
            assert forall|i: int, j: int|
                0 <= i < marks@.len() && marks@[i] && edge(cells, i, j) implies marks@[j] by {
                assert(!worklist@.contains(i as usize));
            }
            lemma_marks_are_reach(cells, seeds, marks@);
        }
        marks
    }

    /// The mark of every cell after marking from the pinned roots and the
    /// `context` handles: `Marked` exactly for the cells that can be reached.
    pub fn mark(&self, context: &Vec<usize>) -> (states: Vec<GcState>)
        ensures
            states@.len() == self@.cells.len(),
            forall|i: int|
                0 <= i < states@.len() ==> (#[trigger] states@[i] == GcState::Marked
                    <==> reachable(self@.cells, self@.seeds(context@), i)),
    {
        let marks = self.mark_bits(context);
        let n = marks.len();
        let mut states: Vec<GcState> = Vec::new();
        let mut i: usize = 0;
        while i < n
            invariant
                n == marks@.len(),
                i <= n,
                states@.len() == i,
                forall|j: int|
                    0 <= j < i ==> (#[trigger] states@[j] == GcState::Marked <==> marks@[j]),
            decreases n - i,
        {
            if marks[i] {
                states.push(GcState::Marked);
            } else {
                states.push(GcState::Unmarked);
            }
            i = i + 1;
        }
        states
    }
}

/// The forwarding table for the marks, and the number of marked cells.
fn build_forwarding(marks: &Vec<bool>) -> (r: (Vec<usize>, usize))
    ensures
        r.0@ == forwarding_table(marks@),
        r.1 == rank(marks@, marks@.len() as int),
{
    let n = marks.len();
    let mut table: Vec<usize> = Vec::new();
    let mut next: usize = 0;
    let mut i: usize = 0;
    while i < n
        invariant
            n == marks@.len(),
            i <= n,
            table@.len() == i,
            next == rank(marks@, i as int),
            next <= i,
            forall|j: int| 0 <= j < i ==> table@[j] == forwarding_table(marks@)[j],
        decreases n - i,
    {
        if marks[i] {
            table.push(next);
            next = next + 1;
        } else {
            table.push(DEAD);
        }
        i = i + 1;
    }
    assert(table@ =~= forwarding_table(marks@));
    (table, next)
}

/// Compaction up to `n + 1` is compaction up to `n`, with the cell `n` added
/// where it is marked.
proof fn lemma_compacted_step(cells: Cells, marks: Seq<bool>, table: Seq<usize>, n: int)
    requires
        0 <= n < marks.len(),
    ensures
        compacted(cells, marks, table, n + 1) == if marks[n] {
            compacted(cells, marks, table, n).push(Some(cells[n].unwrap().forwarded(table)))
        } else {
            compacted(cells, marks, table, n)
        },
{
    if marks[n] {
        assert(compacted(cells, marks, table, n + 1) =~= compacted(cells, marks, table, n).push(
            Some(cells[n].unwrap().forwarded(table)),
        ));
    }
}

/// The live handles are handles of the sequence, each names a live cell,
/// and they repeat nothing that the sequence does not repeat.
pub proof fn lemma_live_handles(cells: Cells, handles: Seq<usize>)
    ensures
        forall|k: int|
            0 <= k < live_handles(cells, handles).len() ==> live(
                cells,
                #[trigger] live_handles(cells, handles)[k] as int,
            ) && handles.contains(live_handles(cells, handles)[k]),
        forall|h: usize|
            handles.contains(h) && live(cells, h as int) ==> live_handles(cells, handles).contains(
                h,
            ),
        handles.no_duplicates() ==> live_handles(cells, handles).no_duplicates(),
    decreases handles.len(),
{
    if handles.len() > 0 {
        let front = handles.drop_last();
        let last = handles.last();
        lemma_live_handles(cells, front);
        let lf = live_handles(cells, front);
        let lh = live_handles(cells, handles);
        assert forall|k: int| 0 <= k < lh.len() implies live(cells, #[trigger] lh[k] as int)
            && handles.contains(lh[k]) by {
            if k < lf.len() {
                assert(lh[k] == lf[k]);
                assert(front.contains(lf[k]));
                let j = choose|j: int| 0 <= j < front.len() && front[j] == lf[k];
                assert(handles[j] == lf[k]);
            } else {
                assert(handles[handles.len() - 1] == last);
            }
        }
        assert forall|h: usize| handles.contains(h) && live(cells, h as int) implies lh.contains(
            h,
        ) by {
            let j = choose|j: int| 0 <= j < handles.len() && handles[j] == h;
            if j < front.len() {
                assert(front[j] == h);
                assert(front.contains(h));
                let k = choose|k: int| 0 <= k < lf.len() && lf[k] == h;
                assert(lh[k] == h);
            } else {
                assert(lh[lf.len() as int] == h);
            }
        }
        if handles.no_duplicates() {
            assert(front.no_duplicates());
            if live(cells, last as int) {
                assert(!lf.contains(last)) by {
                    if lf.contains(last) {
                        let k = choose|k: int| 0 <= k < lf.len() && lf[k] == last;
                        assert(front.contains(lf[k]));
                        let j = choose|j: int| 0 <= j < front.len() && front[j] == last;
                        assert(handles[j] == handles[handles.len() - 1]);
                    }
                }
            }
        }
    }
}

/// The unmarked live cells are what the name says, each once, and none is
/// missing.
pub proof fn lemma_unmarked_live(cells: Cells, marks: Seq<bool>, n: int)
    requires
        0 <= n <= cells.len(),
        n <= usize::MAX,
        marks.len() == cells.len(),
    ensures
        forall|k: int|
            0 <= k < unmarked_live(cells, marks, n).len() ==> (#[trigger] unmarked_live(
                cells,
                marks,
                n,
            )[k]) < n && cells[unmarked_live(cells, marks, n)[k] as int].is_some()
                && !marks[unmarked_live(cells, marks, n)[k] as int],
        forall|i: int|
            0 <= i < n && (#[trigger] cells[i]).is_some() && !marks[i] ==> unmarked_live(
                cells,
                marks,
                n,
            ).contains(i as usize),
        unmarked_live(cells, marks, n).no_duplicates(),
    decreases n,
{
    if n > 0 {
        lemma_unmarked_live(cells, marks, n - 1);
        let prev = unmarked_live(cells, marks, n - 1);
        let cur = unmarked_live(cells, marks, n);
        assert forall|i: int|
            0 <= i < n && (#[trigger] cells[i]).is_some() && !marks[i] implies cur.contains(
            i as usize,
        ) by {
            if i < n - 1 {
                assert(prev.contains(i as usize));
                let k = choose|k: int| 0 <= k < prev.len() && prev[k] == i as usize;
                assert(cur[k] == i as usize);
            } else {
                assert(cur[prev.len() as int] == i as usize);
            }
        }
    }
}

impl Heap {
    /// Reclaims every cell that cannot be reached from a pinned root or from
    /// one of the `context` handles, and moves the others together: the heap
    /// afterwards holds the reachable cells in their old order, without a
    /// dead cell between them, and every handle in them names the new place
    /// of its target. The table that is returned says where each cell went;
    /// the caller rewrites the handles it holds through it.
    pub fn collect(&mut self, context: &Vec<usize>) -> (r: Forwarding)
        requires
            old(self).wf(),
        ensures
            final(self).wf(),
            r@ == old(self)@.forwarding(context@),
            final(self)@ == old(self)@.collect(context@),
    {
        let ghost pre = self@;
        let ghost cells = self@.cells;
        let ghost seeds = self@.seeds(context@);
        let marks = self.mark_bits(context);
        let (table, count) = build_forwarding(&marks);
        let n = self.memory.len();
        proof {
            lemma_survivors(marks@, n as int);
        }
        // The roots that name live cells, at their new places.
        let mut new_roots: Vec<usize> = Vec::new();
        let m = self.roots.len();
        let mut k: usize = 0;
        while k < m
            invariant
                m == self.roots@.len(),
                k <= m,
                n == self.memory@.len(),
                cells == contents(self.memory@),
                table@.len() == n,
                new_roots@ == forward_all(
                    table@,
                    live_handles(cells, self.roots@.subrange(0, k as int)),
                ),
            decreases m - k,
        {
            let h = self.roots[k];
            proof {
                let next = self.roots@.subrange(0, k + 1);
                assert(next.drop_last() == self.roots@.subrange(0, k as int));
                assert(next.last() == h);
            }
            if h < n && !self.memory[h].dead {
                new_roots.push(table[h]);
                assert(new_roots@ =~= forward_all(
                    table@,
                    live_handles(cells, self.roots@.subrange(0, k + 1)),
                ));
            }
            k = k + 1;
        }
        assert(self.roots@.subrange(0, m as int) == self.roots@);
        // The marked cells, rewritten, in their old order.
        let mut fresh: Vec<GcCell> = Vec::new();
        let mut i: usize = 0;
        while i < n
            invariant
                n == self.memory@.len(),
                n == cells.len(),
                marks@.len() == n,
                marks@ == reach_marks(cells, seeds),
                i <= n,
                forall|j: int| i <= j < n ==> self.memory@[j].content() == cells[j],
                contents(fresh@) == compacted(cells, marks@, table@, i as int),
            decreases n - i,
        {
            proof {
                lemma_compacted_step(cells, marks@, table@, i as int);
            }
            if marks[i] {
                proof {
                    lemma_reachable_live(cells, seeds, i as int);
                }
                let ghost before = fresh@;
                let cell = &mut self.memory[i];
                let mut value = Value::Null;
                core::mem::swap(&mut cell.value, &mut value);
                value.rewrite(&table);
                fresh.push(GcCell { dead: false, value });
                assert(contents(fresh@) =~= contents(before).push(
                    Some(cells[i as int].unwrap().forwarded(table@)),
                ));
            }
            i = i + 1;
        }
        self.memory = fresh;
        self.free_indices = Vec::new();
        self.roots = new_roots;
        let shrunk = self.memory.len();
        proof {
            let post = self@;
            assert(post.cells == pre.collect(context@).cells);
            assert(post.free =~= Seq::<usize>::empty());
            assert(post == pre.collect(context@));
            lemma_collect_wf(pre, context@);
        }
        Forwarding { table }
    }

    /// Frees every cell that cannot be reached from a pinned root, without
    /// moving any other: the freed cells are dead and stand on the free-list
    /// for the allocations to come.
    pub fn collect_garbage(&mut self)
        requires
            old(self).wf(),
        ensures
            final(self).wf(),
            final(self)@ == old(self)@.sweep(),
    {
        let ghost pre = self@;
        let ghost cells = self@.cells;
        let context: Vec<usize> = Vec::new();
        let marks = self.mark_bits(&context);
        let n = self.memory.len();
        let mut i: usize = 0;
        while i < n
            invariant
                n == self.memory@.len(),
                n == cells.len(),
                marks@.len() == n,
                i <= n,
                self.roots@ == pre.roots,
                forall|j: int| i <= j < n ==> self.memory@[j].content() == cells[j],
                forall|j: int|
                    0 <= j < i ==> self.memory@[j].content() == if marks@[j] {
                        cells[j]
                    } else {
                        None
                    },
                self.free_indices@ == pre.free + unmarked_live(cells, marks@, i as int),
            decreases n - i,
        {
            if !marks[i] && !self.memory[i].dead {
                let cell = &mut self.memory[i];
                cell.dead = true;
                cell.value = Value::Null;
                self.free_indices.push(i);
                assert(self.free_indices@ =~= pre.free + unmarked_live(cells, marks@, i + 1));
            }
            i = i + 1;
        }
        proof {
            assert(contents(self.memory@) =~= swept(cells, marks@));
            assert(self@ == pre.sweep());
            lemma_sweep_wf(pre);
        }
    }
}

/// A compacting collection leaves a well-formed heap.
pub proof fn lemma_collect_wf(h: HeapView, context: Seq<usize>)
    requires
        h.wf(),
    ensures
        h.collect(context).wf(),
{
    let post = h.collect(context);
    let marks = h.marks(context);
    let table = h.forwarding(context);
    let alive = live_handles(h.cells, h.roots);
    lemma_live_handles(h.cells, h.roots);
    lemma_survivors(marks, h.cells.len() as int);
    assert forall|a: int, b: int|
        0 <= a < post.roots.len() && 0 <= b < post.roots.len() && a != b implies post.roots[a]
        != post.roots[b] by {
        let x = alive[a];
        let y = alive[b];
        assert(x != y);
        assert(h.roots.contains(x));
        assert(h.roots.contains(y));
        let ka = choose|k: int| 0 <= k < h.roots.len() && h.roots[k] == x;
        let kb = choose|k: int| 0 <= k < h.roots.len() && h.roots[k] == y;
        assert(h.seeds(context)[ka] == x);
        assert(h.seeds(context)[kb] == y);
        lemma_seed_reachable(h.cells, h.seeds(context), x);
        lemma_seed_reachable(h.cells, h.seeds(context), y);
        assert(marks[x as int] && marks[y as int]);
        if x < y {
            crate::reach::lemma_rank_monotone(marks, x as int, y as int);
        } else {
            crate::reach::lemma_rank_monotone(marks, y as int, x as int);
        }
        assert(post.roots[a] == forward(table, x));
        assert(post.roots[b] == forward(table, y));
    }
}

/// A sweep leaves a well-formed heap.
pub proof fn lemma_sweep_wf(h: HeapView)
    requires
        h.wf(),
    ensures
        h.sweep().wf(),
{
    let post = h.sweep();
    let marks = h.marks(Seq::empty());
    let n = h.cells.len() as int;
    let fresh = unmarked_live(h.cells, marks, n);
    lemma_unmarked_live(h.cells, marks, n);
    assert forall|a: int, b: int|
        0 <= a < post.free.len() && 0 <= b < post.free.len() && a != b implies post.free[a]
        != post.free[b] by {
        if a < h.free.len() && b >= h.free.len() {
            assert(post.free[b] == fresh[b - h.free.len()]);
            assert(h.cells[h.free[a] as int].is_none());
        } else if b < h.free.len() && a >= h.free.len() {
            assert(post.free[a] == fresh[a - h.free.len()]);
            assert(h.cells[h.free[b] as int].is_none());
        } else if a >= h.free.len() {
            assert(post.free[a] == fresh[a - h.free.len()]);
            assert(post.free[b] == fresh[b - h.free.len()]);
        }
    }
    assert forall|k: int| 0 <= k < post.free.len() implies (#[trigger] post.free[k])
        < post.cells.len() && post.cells[post.free[k] as int].is_none() by {
        if k < h.free.len() {
            assert(post.free[k] == h.free[k]);
        } else {
            assert(post.free[k] == fresh[k - h.free.len()]);
        }
    }
    assert forall|i: int|
        0 <= i < post.cells.len() && (#[trigger] post.cells[i]).is_none() implies post.free.contains(
        i as usize,
    ) by {
        if h.cells[i].is_none() {
            assert(h.free.contains(i as usize));
            let k = choose|k: int| 0 <= k < h.free.len() && h.free[k] == i as usize;
            assert(post.free[k] == i as usize);
        } else {
            assert(fresh.contains(i as usize));
            let k = choose|k: int| 0 <= k < fresh.len() && fresh[k] == i as usize;
            assert(post.free[h.free.len() + k] == i as usize);
        }
    }
}

/// Every cell that can be reached from a pinned root or a context handle
/// survives a compacting collection: its forwarded handle dereferences to its
/// old value with the handles in it forwarded.
pub proof fn lemma_reachable_survives(h: HeapView, context: Seq<usize>, i: usize)
    requires
        h.wf(),
        reachable(h.cells, h.seeds(context), i as int),
    ensures
        h.lookup(i).is_some(),
        forward(h.forwarding(context), i) < h.collect(context).cells.len(),
        h.collect(context).lookup(forward(h.forwarding(context), i)) == Some(
            h.lookup(i).unwrap().forwarded(h.forwarding(context)),
        ),
{
    let marks = h.marks(context);
    lemma_reachable_live(h.cells, h.seeds(context), i as int);
    lemma_survivors(marks, h.cells.len() as int);
    assert(marks[i as int]);
}

/// Root survival: a pinned handle to a live cell is still pinned, at its new
/// place, after a compacting collection, and dereferences there to its old
/// value with the handles in it forwarded.
pub proof fn lemma_root_survives(h: HeapView, context: Seq<usize>, root: usize)
    requires
        h.wf(),
        h.roots.contains(root),
        h.lookup(root).is_some(),
    ensures
        h.collect(context).roots.contains(forward(h.forwarding(context), root)),
        h.collect(context).lookup(forward(h.forwarding(context), root)) == Some(
            h.lookup(root).unwrap().forwarded(h.forwarding(context)),
        ),
{
    let k = choose|k: int| 0 <= k < h.roots.len() && h.roots[k] == root;
    assert(h.seeds(context)[k] == root);
    lemma_seed_reachable(h.cells, h.seeds(context), root);
    lemma_reachable_survives(h, context, root);
    lemma_live_handles(h.cells, h.roots);
    let alive = live_handles(h.cells, h.roots);
    assert(alive.contains(root));
    let j = choose|j: int| 0 <= j < alive.len() && alive[j] == root;
    assert(h.collect(context).roots[j] == forward(h.forwarding(context), root));
}

/// A handle that the caller passes as context survives in the same way.
pub proof fn lemma_context_survives(h: HeapView, context: Seq<usize>, handle: usize)
    requires
        h.wf(),
        context.contains(handle),
        h.lookup(handle).is_some(),
    ensures
        h.collect(context).lookup(forward(h.forwarding(context), handle)) == Some(
            h.lookup(handle).unwrap().forwarded(h.forwarding(context)),
        ),
{
    let k = choose|k: int| 0 <= k < context.len() && context[k] == handle;
    assert(h.seeds(context)[h.roots.len() + k] == handle);
    lemma_seed_reachable(h.cells, h.seeds(context), handle);
    lemma_reachable_survives(h, context, handle);
}

/// Garbage is collected: a cell that cannot be reached from a pinned root or
/// a context handle is absent after a compacting collection. Its handle is
/// forwarded to the index that no cell has, and no cell of the new heap was
/// made from it.
pub proof fn lemma_garbage_collected(h: HeapView, context: Seq<usize>, i: usize)
    requires
        h.wf(),
        !reachable(h.cells, h.seeds(context), i as int),
    ensures
        forward(h.forwarding(context), i) == usize::MAX,
        h.collect(context).lookup(forward(h.forwarding(context), i)).is_none(),
        forall|k: int|
            0 <= k < h.collect(context).cells.len() ==> survivors(
                h.marks(context),
                h.cells.len() as int,
            )[k] != i,
{
    let marks = h.marks(context);
    lemma_survivors(marks, h.cells.len() as int);
}

/// A cell that cannot be reached from a pinned root is dead after a sweep,
/// and every other cell is what it was.
pub proof fn lemma_garbage_swept(h: HeapView, i: usize)
    requires
        h.wf(),
    ensures
        h.sweep().lookup(i) == if reachable(h.cells, h.roots, i as int) {
            h.lookup(i)
        } else {
            None
        },
{
    assert(h.seeds(Seq::empty()) =~= h.roots);
    if reachable(h.cells, h.roots, i as int) {
        lemma_reachable_live(h.cells, h.roots, i as int);
    }
}

/// Compaction: after a compacting collection the heap holds as many cells
/// as were reachable, none of them dead, and each is the image of exactly
/// one reachable cell.
pub proof fn lemma_compaction(h: HeapView, context: Seq<usize>)
    requires
        h.wf(),
    ensures
        h.collect(context).cells.len() == rank(h.marks(context), h.cells.len() as int),
        h.collect(context).live_count() == h.collect(context).cells.len(),
        forall|k: int|
            0 <= k < h.collect(context).cells.len() ==> (#[trigger] h.collect(
                context,
            ).cells[k]).is_some(),
        forall|k: int|
            0 <= k < h.collect(context).cells.len() ==> reachable(
                h.cells,
                h.seeds(context),
                #[trigger] survivors(h.marks(context), h.cells.len() as int)[k],
            ) && forward(
                h.forwarding(context),
                survivors(h.marks(context), h.cells.len() as int)[k] as usize,
            ) == k,
        forall|i: int, j: int|
            0 <= i < j < h.cells.len() && reachable(h.cells, h.seeds(context), i) && reachable(
                h.cells,
                h.seeds(context),
                j,
            ) ==> forward(h.forwarding(context), i as usize) < forward(
                h.forwarding(context),
                j as usize,
            ),
{
    let marks = h.marks(context);
    let n = h.cells.len() as int;
    lemma_survivors(marks, n);
    assert forall|i: int, j: int|
        0 <= i < j < h.cells.len() && reachable(h.cells, h.seeds(context), i) && reachable(
            h.cells,
            h.seeds(context),
            j,
        ) implies forward(h.forwarding(context), i as usize) < forward(
        h.forwarding(context),
        j as usize,
    ) by {
        crate::reach::lemma_rank_monotone(marks, i, j);
        assert(marks[i] && marks[j]);
    }
}

/// Pointer rewriting: after a compacting collection the handles in a
/// surviving cell are the forwarded handles of the old cell, and each
/// dereferences to what it dereferenced to before, with the handles in that
/// value forwarded in turn; a handle that named no live cell names none
/// afterwards.
pub proof fn lemma_pointers_rewritten(h: HeapView, context: Seq<usize>, i: usize, k: int)
    requires
        h.wf(),
        reachable(h.cells, h.seeds(context), i as int),
        0 <= k < h.lookup(i).unwrap().handles().len(),
    ensures
        h.collect(context).lookup(forward(h.forwarding(context), i)).unwrap().handles()
            == forward_all(h.forwarding(context), h.lookup(i).unwrap().handles()),
        h.collect(context).lookup(
            forward(h.forwarding(context), h.lookup(i).unwrap().handles()[k]),
        ) == match h.lookup(h.lookup(i).unwrap().handles()[k]) {
            Some(v) => Some(v.forwarded(h.forwarding(context))),
            None => None,
        },
{
    let table = h.forwarding(context);
    let marks = h.marks(context);
    let value = h.lookup(i).unwrap();
    let target = value.handles()[k];
    lemma_reachable_survives(h, context, i);
    value.lemma_forwarded_handles(table);
    lemma_survivors(marks, h.cells.len() as int);
    if h.lookup(target).is_some() {
        assert(holds(value.handles(), target as int));
        assert(edge(h.cells, i as int, target as int));
        lemma_step_reachable(h.cells, h.seeds(context), i as int, target as int);
        lemma_reachable_survives(h, context, target);
    } else {
        if target < h.cells.len() {
            if reachable(h.cells, h.seeds(context), target as int) {
                lemma_reachable_live(h.cells, h.seeds(context), target as int);
            }
        }
    }
}

/// Whether every handle that the value holds names a live cell.
pub open spec fn handles_live(cells: Cells, value: ValueView) -> bool {
    forall|k: int|
        0 <= k < value.handles().len() ==> live(cells, #[trigger] value.handles()[k] as int)
}

/// Handles stay in bounds: where no reachable cell holds a handle to a dead
/// or missing cell, every handle in the heap after a compacting collection
/// names a cell of that heap.
pub proof fn lemma_collect_keeps_handles_in_bounds(h: HeapView, context: Seq<usize>, j: int, k: int)
    requires
        h.wf(),
        forall|i: int|
            reachable(h.cells, h.seeds(context), i) ==> handles_live(
                h.cells,
                (#[trigger] h.cells[i]).unwrap(),
            ),
        0 <= j < h.collect(context).cells.len(),
        0 <= k < h.collect(context).cells[j].unwrap().handles().len(),
    ensures
        h.collect(context).cells[j].unwrap().handles()[k] < h.collect(context).cells.len(),
{
    let marks = h.marks(context);
    let table = h.forwarding(context);
    let n = h.cells.len() as int;
    lemma_survivors(marks, n);
    let source = survivors(marks, n)[j];
    assert(marks[source]);
    assert(reachable(h.cells, h.seeds(context), source));
    lemma_reachable_live(h.cells, h.seeds(context), source);
    let value = h.cells[source].unwrap();
    value.lemma_forwarded_handles(table);
    let target = value.handles()[k];
    assert(live(h.cells, target as int));
    assert(holds(value.handles(), target as int));
    assert(edge(h.cells, source, target as int));
    lemma_step_reachable(h.cells, h.seeds(context), source, target as int);
    assert(marks[target as int]);
}

/// A handle to a live cell that the caller passes as context, or that is
/// pinned, is forwarded to a cell of the heap after the collection.
pub proof fn lemma_forwarded_seed_in_bounds(h: HeapView, context: Seq<usize>, handle: usize)
    requires
        h.wf(),
        h.seeds(context).contains(handle),
        h.lookup(handle).is_some(),
    ensures
        forward(h.forwarding(context), handle) < h.collect(context).cells.len(),
{
    lemma_seed_reachable(h.cells, h.seeds(context), handle);
    lemma_reachable_survives(h, context, handle);
}

} // verus!
