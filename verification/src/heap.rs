//! The heap: a dense sequence of cells, a free-list of the dead ones, and
//! the registry of pinned roots.

use crate::error::{ErrorView, VmError};
use crate::handle::Gc;
use crate::reach::{live, Cells};
use crate::value::{Value, ValueView};
use vstd::prelude::*;

verus! {

/// The mark of a cell during a collection.
#[derive(Debug, Clone, Copy, PartialEq, Eq, Structural)]
pub enum GcState {
    Unmarked,
    Marked,
}

/// One cell of the heap.
#[derive(Debug)]
pub struct GcCell {
    /// Whether the cell was freed and waits on the free-list.
    pub dead: bool,
    /// What the cell holds; stale while the cell is dead.
    pub value: Value,
}

impl GcCell {
    /// A live cell that holds `value`.
    pub fn new(value: Value) -> (r: Self)
        ensures
            !r.dead,
            r.value == value,
    {
        GcCell { dead: false, value }
    }

    /// What the collector sees of the cell.
    pub open spec fn content(self) -> Option<ValueView> {
        if self.dead {
            None
        } else {
            Some(self.value@)
        }
    }
}

/// What the collector sees of a sequence of cells.
pub open spec fn contents(memory: Seq<GcCell>) -> Cells {
    Seq::new(memory.len(), |i: int| memory[i].content())
}

/// The items of `s` other than `x`, in order.
pub open spec fn without(s: Seq<usize>, x: usize) -> Seq<usize>
    decreases s.len(),
{
    if s.len() == 0 {
        s
    } else if s.last() == x {
        without(s.drop_last(), x)
    } else {
        without(s.drop_last(), x).push(s.last())
    }
}

/// `without` removes `x` and nothing else.
pub proof fn lemma_without(s: Seq<usize>, x: usize)
    ensures
        !without(s, x).contains(x),
        forall|y: usize| y != x ==> (without(s, x).contains(y) <==> s.contains(y)),
        s.no_duplicates() ==> without(s, x).no_duplicates(),
        without(s, x).len() <= s.len(),
    decreases s.len(),
{
    if s.len() > 0 {
        let front = s.drop_last();
        lemma_without(front, x);
        let w = without(front, x);
        assert forall|y: usize| y != x implies (without(s, x).contains(y) <==> s.contains(y)) by {
            if s.contains(y) {
                let k = choose|k: int| 0 <= k < s.len() && s[k] == y;
                if k < front.len() {
                    assert(front[k] == y);
                    assert(front.contains(y));
                    assert(w.contains(y));
                    let j = choose|j: int| 0 <= j < w.len() && w[j] == y;
                    if s.last() != x {
                        assert(w.push(s.last())[j] == y);
                    }
                } else {
                    assert(w.push(s.last())[w.len() as int] == y);
                }
            }
            if without(s, x).contains(y) {
                let j = choose|j: int| 0 <= j < without(s, x).len() && without(s, x)[j] == y;
                if s.last() != x && j == w.len() {
                    assert(s[s.len() - 1] == y);
                } else {
                    assert(w[j] == y);
                    assert(front.contains(y));
                    let k = choose|k: int| 0 <= k < front.len() && front[k] == y;
                    assert(s[k] == y);
                }
            }
        }
        if s.no_duplicates() {
            assert(front.no_duplicates());
            if s.last() != x {
                assert(!w.contains(s.last())) by {
                    if w.contains(s.last()) {
                        assert(front.contains(s.last()));
                        let k = choose|k: int| 0 <= k < front.len() && front[k] == s.last();
                        assert(s[k] == s[s.len() - 1]);
                    }
                }
            }
        }
    }
}

/// The mathematical content of a [`Heap`].
pub struct HeapView {
    /// The cells, `None` for a dead one.
    pub cells: Cells,
    /// The free-list; allocation takes its last entry.
    pub free: Seq<usize>,
    /// The pinned roots, in the order in which they were pinned.
    pub roots: Seq<usize>,
}

impl HeapView {
    /// The free-list names exactly the dead cells, each once, no root is
    /// pinned twice, and every index fits a machine word.
    pub open spec fn wf(self) -> bool {
        &&& self.cells.len() <= usize::MAX
        &&& self.free.no_duplicates()
        &&& forall|k: int|
            0 <= k < self.free.len() ==> (#[trigger] self.free[k]) < self.cells.len()
                && self.cells[self.free[k] as int].is_none()
        &&& forall|i: int|
            0 <= i < self.cells.len() && (#[trigger] self.cells[i]).is_none()
                ==> self.free.contains(i as usize)
        &&& self.roots.no_duplicates()
    }

    /// What the handle with index `i` dereferences to, if it names a live
    /// cell.
    pub open spec fn lookup(self, i: usize) -> Option<ValueView> {
        if i < self.cells.len() {
            self.cells[i as int]
        } else {
            None
        }
    }

    /// The result of dereferencing the handle with index `i`.
    pub open spec fn deref(self, i: usize) -> Result<ValueView, ErrorView> {
        match self.lookup(i) {
            Some(v) => Ok(v),
            None => Err(ErrorView::UseAfterFree(i)),
        }
    }

    /// Where the next allocation puts its value: the cell that the free-list
    /// names last, or a new cell at the end.
    pub open spec fn next_index(self) -> usize {
        if self.free.len() > 0 {
            self.free.last()
        } else {
            self.cells.len() as usize
        }
    }

    /// The heap after allocating `value`.
    pub open spec fn allocate(self, value: ValueView) -> HeapView {
        if self.free.len() > 0 {
            HeapView {
                cells: self.cells.update(self.free.last() as int, Some(value)),
                free: self.free.drop_last(),
                roots: self.roots,
            }
        } else {
            HeapView { cells: self.cells.push(Some(value)), free: self.free, roots: self.roots }
        }
    }

    /// The heap after the cell `i` was given the value `value`.
    pub open spec fn store(self, i: usize, value: ValueView) -> HeapView {
        HeapView { cells: self.cells.update(i as int, Some(value)), ..self }
    }

    /// The heap after pinning `i`.
    pub open spec fn pin(self, i: usize) -> HeapView {
        if self.roots.contains(i) {
            self
        } else {
            HeapView { roots: self.roots.push(i), ..self }
        }
    }

    /// The heap after unpinning `i`.
    pub open spec fn unpin(self, i: usize) -> HeapView {
        HeapView { roots: without(self.roots, i), ..self }
    }

    /// The number of live cells.
    pub open spec fn live_count(self) -> int {
        self.cells.len() - self.free.len()
    }
}

/// The heap of a virtual machine.
#[derive(Debug)]
pub struct Heap {
    pub(crate) memory: Vec<GcCell>,
    pub(crate) free_indices: Vec<usize>,
    pub(crate) roots: Vec<usize>,
}

impl View for Heap {
    type V = HeapView;

    open(crate) spec fn view(&self) -> HeapView {
        HeapView {
            cells: contents(self.memory@),
            free: self.free_indices@,
            roots: self.roots@,
        }
    }
}

impl Heap {
    /// Whether the heap's invariant holds.
    pub open spec fn wf(&self) -> bool {
        self@.wf()
    }

    /// An empty heap.
    pub fn new() -> (r: Self)
        ensures
            r.wf(),
            r@ == (HeapView { cells: Seq::empty(), free: Seq::empty(), roots: Seq::empty() }),
    {
        let r = Heap { memory: Vec::new(), free_indices: Vec::new(), roots: Vec::new() };
        assert(contents(r.memory@) =~= Seq::empty());
        r
    }

    /// Puts `value` in a cell and returns the handle to it. A dead cell is
    /// taken from the free-list where there is one; otherwise the heap grows
    /// by one cell.
    pub fn allocate(&mut self, value: Value) -> (r: Gc<Value>)
        requires
            old(self).wf(),
        ensures
            final(self).wf(),
            r.index == old(self)@.next_index(),
            final(self)@ == old(self)@.allocate(value@),
            final(self)@.lookup(r.index) == Some(value@),
    {
        let ghost pre = self@;
        match self.free_indices.pop() {
            Some(index) => {
                assert(index == pre.free.last());
                assert(index < self.memory@.len());
                let ghost v = value@;
                self.memory.set(index, GcCell { dead: false, value });
                proof {
                    assert(contents(self.memory@) =~= pre.cells.update(index as int, Some(v)));
                    let post = self@;
                    assert forall|i: int|
                        0 <= i < post.cells.len() && (#[trigger] post.cells[i]).is_none() implies post.free.contains(
                        i as usize,
                    ) by {
                        assert(pre.cells[i].is_none());
                        assert(pre.free.contains(i as usize));
                        let k = choose|k: int| 0 <= k < pre.free.len() && pre.free[k] == i as usize;
                        assert(k < pre.free.len() - 1);
                        assert(post.free[k] == i as usize);
                    }
                    assert forall|k: int| 0 <= k < post.free.len() implies (
                    #[trigger] post.free[k]) < post.cells.len() && post.cells[post.free[k] as int].is_none() by {
                        assert(post.free[k] == pre.free[k]);
                        assert(pre.free[k] != pre.free[pre.free.len() - 1]);
                    }
                }
                Gc::new(index)
            },
            None => {
                let index = self.memory.len();
                let ghost v = value@;
                self.memory.push(GcCell { dead: false, value });
                let grown = self.memory.len();
                proof {
                    assert(contents(self.memory@) =~= pre.cells.push(Some(v)));
                    let post = self@;
                    assert forall|i: int|
                        0 <= i < post.cells.len() && (#[trigger] post.cells[i]).is_none() implies post.free.contains(
                        i as usize,
                    ) by {
                        assert(pre.cells[i].is_none());
                    }
                }
                Gc::new(index)
            },
        }
    }

    /// Allocates `value` and, where `root` is set, pins the new cell.
    pub fn allocate_rooted(&mut self, value: Value, root: bool) -> (r: Gc<Value>)
        requires
            old(self).wf(),
        ensures
            final(self).wf(),
            r.index == old(self)@.next_index(),
            final(self)@ == if root {
                old(self)@.allocate(value@).pin(r.index)
            } else {
                old(self)@.allocate(value@)
            },
            final(self)@.lookup(r.index) == Some(value@),
    {
        let r = self.allocate(value);
        if root {
            self.add_root(&r);
        }
        r
    }

    /// The value in the cell that `handle` names; `UseAfterFree` where the
    /// cell is dead or the index names no cell.
    pub fn view_ref<T>(&self, handle: Gc<T>) -> (r: Result<&Value, VmError>)
        ensures
            match r {
                Ok(v) => self@.deref(handle.index) == Ok::<ValueView, ErrorView>(v@),
                Err(e) => self@.deref(handle.index) == Err::<ValueView, ErrorView>(e@),
            },
    {
        let i = handle.index;
        if i < self.memory.len() {
            if self.memory[i].dead {
                Err(VmError::UseAfterFree(i))
            } else {
                Ok(&self.memory[i].value)
            }
        } else {
            Err(VmError::UseAfterFree(i))
        }
    }

    /// Mutable access to the value in the cell that `handle` names. What the
    /// caller leaves behind the reference is what the cell holds afterwards.
    pub fn view_mut<T>(&mut self, handle: Gc<T>) -> (r: Result<&mut Value, VmError>)
        ensures
            match r {
                Ok(v) => old(self)@.deref(handle.index) == Ok::<ValueView, ErrorView>(v@)
                    && final(self)@ == old(self)@.store(handle.index, (*final(v))@),
                Err(e) => old(self)@.deref(handle.index) == Err::<ValueView, ErrorView>(e@)
                    && final(self)@ == old(self)@,
            },
            old(self).wf() ==> final(self).wf(),
    {
        let i = handle.index;
        if i < self.memory.len() {
            if self.memory[i].dead {
                Err(VmError::UseAfterFree(i))
            } else {
                let ghost pre = self.memory@;
                let cell = &mut self.memory[i];
                let r = &mut cell.value;
                proof {
                    let post = pre.update(i as int, GcCell { dead: false, value: *final(r) });
                    assert(contents(post) =~= contents(pre).update(i as int, Some((*final(r))@)));
                }
                Ok(r)
            }
        } else {
            Err(VmError::UseAfterFree(i))
        }
    }

    /// The value in the live cell at `index`, if there is one.
    pub fn get_value(&self, index: usize) -> (r: Option<&Value>)
        ensures
            match r {
                Some(v) => self@.lookup(index) == Some(v@),
                None => self@.lookup(index).is_none(),
            },
    {
        if index < self.memory.len() {
            if self.memory[index].dead {
                None
            } else {
                Some(&self.memory[index].value)
            }
        } else {
            None
        }
    }

    /// Whether `index` is pinned.
    pub fn is_root(&self, index: usize) -> (r: bool)
        ensures
            r == self@.roots.contains(index),
    {
        let n = self.roots.len();
        let mut i: usize = 0;
        while i < n
            invariant
                n == self.roots@.len(),
                i <= n,
                forall|j: int| 0 <= j < i ==> self.roots@[j] != index,
            decreases n - i,
        {
            if self.roots[i] == index {
                return true;
            }
            i = i + 1;
        }
        false
    }

    /// Pins the cell that `handle` names: it survives every collection until
    /// it is unpinned.
    pub fn add_root<T>(&mut self, handle: &Gc<T>)
        requires
            old(self).wf(),
        ensures
            final(self).wf(),
            final(self)@ == old(self)@.pin(handle.index),
    {
        if !self.is_root(handle.index) {
            let ghost pre = self.roots@;
            self.roots.push(handle.index);
            assert(self.roots@.no_duplicates()) by {
                assert forall|a: int, b: int|
                    0 <= a < self.roots@.len() && 0 <= b < self.roots@.len() && a
                        != b implies self.roots@[a] != self.roots@[b] by {
                    if a < pre.len() {
                        assert(pre[a] == self.roots@[a]);
                    }
                    if b < pre.len() {
                        assert(pre[b] == self.roots@[b]);
                    }
                }
            }
        }
    }

    /// Unpins the cell that `handle` names.
    pub fn remove_root<T>(&mut self, handle: &Gc<T>)
        requires
            old(self).wf(),
        ensures
            final(self).wf(),
            final(self)@ == old(self)@.unpin(handle.index),
    {
        let n = self.roots.len();
        let mut kept: Vec<usize> = Vec::new();
        let mut i: usize = 0;
        while i < n
            invariant
                n == self.roots@.len(),
                i <= n,
                kept@ == without(self.roots@.subrange(0, i as int), handle.index),
            decreases n - i,
        {
            let r = self.roots[i];
            proof {
                let next = self.roots@.subrange(0, i + 1);
                assert(next.drop_last() == self.roots@.subrange(0, i as int));
                assert(next.last() == r);
            }
            if r != handle.index {
                kept.push(r);
            }
            i = i + 1;
        }
        proof {
            assert(self.roots@.subrange(0, n as int) == self.roots@);
            lemma_without(self.roots@, handle.index);
        }
        self.roots = kept;
    }

    /// Unpins the cell that `handle` names, so that the next collection may
    /// reclaim it.
    pub fn dealloc<T>(&mut self, handle: Gc<T>)
        requires
            old(self).wf(),
        ensures
            final(self).wf(),
            final(self)@ == old(self)@.unpin(handle.index),
    {
        self.remove_root(&handle)
    }

    /// The number of cells, dead ones included.
    pub fn total_memory(&self) -> (r: usize)
        ensures
            r == self@.cells.len(),
    {
        self.memory.len()
    }

    /// The number of live cells.
    pub fn allocated_count(&self) -> (r: usize)
        requires
            self.wf(),
        ensures
            r == self@.live_count(),
    {
        proof {
            lemma_free_bounded(self@);
        }
        self.memory.len() - self.free_indices.len()
    }

    /// The pinned roots, in the order in which they were pinned.
    pub fn root_indices(&self) -> (r: &Vec<usize>)
        ensures
            r@ == self@.roots,
    {
        &self.roots
    }
}

/// A free-list without repetition is no longer than the heap.
pub proof fn lemma_free_bounded(h: HeapView)
    requires
        h.wf(),
    ensures
        h.free.len() <= h.cells.len(),
{
    lemma_distinct_bounded(h.free, h.cells.len());
}

/// A sequence of distinct numbers below `n` has at most `n` items.
pub proof fn lemma_distinct_bounded(s: Seq<usize>, n: nat)
    requires
        s.no_duplicates(),
        forall|k: int| 0 <= k < s.len() ==> (#[trigger] s[k]) < n,
    ensures
        s.len() <= n,
    decreases n,
{
    if s.len() > 0 {
        if n == 0 {
            assert(s[0] < n);
        } else {
            let top = (n - 1) as usize;
            let w = without(s, top);
            lemma_without(s, top);
            lemma_without_len(s, top);
            assert forall|k: int| 0 <= k < w.len() implies (#[trigger] w[k]) < (n - 1) as nat by {
                assert(w.contains(w[k]));
                assert(s.contains(w[k]));
                let j = choose|j: int| 0 <= j < s.len() && s[j] == w[k];
                assert(s[j] < n);
            }
            lemma_distinct_bounded(w, (n - 1) as nat);
        }
    }
}

/// Removing a value from a sequence of distinct items removes at most one.
pub proof fn lemma_without_len(s: Seq<usize>, x: usize)
    requires
        s.no_duplicates(),
    ensures
        without(s, x).len() >= s.len() - 1,
        !s.contains(x) ==> without(s, x) == s,
    decreases s.len(),
{
    if s.len() > 0 {
        let front = s.drop_last();
        lemma_without_len(front, x);
        if s.last() == x {
            assert(!front.contains(x)) by {
                if front.contains(x) {
                    let k = choose|k: int| 0 <= k < front.len() && front[k] == x;
                    assert(s[k] == s[s.len() - 1]);
                }
            }
        } else {
            if !s.contains(x) {
                assert(!front.contains(x)) by {
                    if front.contains(x) {
                        let k = choose|k: int| 0 <= k < front.len() && front[k] == x;
                        assert(s[k] == x);
                    }
                }
                assert(front.push(s.last()) == s);
            }
        }
    }
}

/// After an allocation the new handle dereferences to the value that was
/// allocated, and every other handle dereferences to what it did before.
pub proof fn lemma_allocate_deref(h: HeapView, value: ValueView, other: usize)
    requires
        h.wf(),
    ensures
        h.allocate(value).deref(h.next_index()) == Ok::<ValueView, ErrorView>(value),
        h.lookup(h.next_index()).is_none(),
        other != h.next_index() ==> h.allocate(value).deref(other) == h.deref(other),
{
    if h.free.len() > 0 {
        let k = h.free.len() - 1;
        assert(h.free[k] < h.cells.len());
    }
}

/// What is stored through a mutable view is what the handle dereferences to
/// afterwards; the other cells keep their values.
pub proof fn lemma_store_deref(h: HeapView, i: usize, value: ValueView, other: usize)
    requires
        h.lookup(i).is_some(),
    ensures
        h.store(i, value).deref(i) == Ok::<ValueView, ErrorView>(value),
        other != i ==> h.store(i, value).deref(other) == h.deref(other),
{
}

} // verus!
