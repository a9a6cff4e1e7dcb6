//! Closed machines: every handle that the machine holds, in a context or in
//! a cell, names a cell of the heap, and no cell is dead.

use crate::context::{frames_handles, ContextView, FrameKind, NyarFrame};
use crate::heap::HeapView;
use crate::object::{entry_index, entry_lookup, entry_store, entry_values, lemma_entry_index};
use crate::value::{context_handles, option_handles, ValueView};
use crate::vm::VmView;
use vstd::prelude::*;

verus! {

/// Whether every handle is below `n`.
pub open spec fn bounded(handles: Seq<usize>, n: nat) -> bool {
    forall|k: int| 0 <= k < handles.len() ==> #[trigger] handles[k] < n
}

/// Whether every entry is bound to a handle below `n`.
pub open spec fn entries_bounded(entries: Seq<(Seq<char>, usize)>, n: nat) -> bool {
    forall|k: int| 0 <= k < entries.len() ==> (#[trigger] entries[k]).1 < n
}

/// Whether the handle, if there is one, is below `n`.
pub open spec fn option_bounded(h: Option<usize>, n: nat) -> bool {
    match h {
        Some(i) => i < n,
        None => true,
    }
}

/// Whether the handles of a frame are below `n`.
pub open spec fn frame_bounded(frame: NyarFrame, n: nat) -> bool {
    frame.function < n && match frame.kind {
        FrameKind::Handler { record, position } => record < n,
        _ => true,
    }
}

/// Whether the handles of every frame are below `n`.
pub open spec fn frames_bounded(frames: Seq<NyarFrame>, n: nat) -> bool {
    forall|k: int| 0 <= k < frames.len() ==> frame_bounded(#[trigger] frames[k], n)
}

/// Whether every handle of a context is below `n`.
pub open spec fn context_bounded(c: ContextView, n: nat) -> bool {
    &&& bounded(c.value_stack, n)
    &&& frames_bounded(c.call_stack, n)
    &&& bounded(c.environment_stack, n)
    &&& bounded(c.effect_handlers, n)
}

/// Whether every handle of the saved context, if there is one, is below
/// `n`.
pub open spec fn saved_bounded(c: Option<ContextView>, n: nat) -> bool {
    match c {
        Some(context) => context_bounded(context, n),
        None => true,
    }
}

/// Whether every handle that a value holds is below `n`.
pub open spec fn value_bounded(v: ValueView, n: nat) -> bool {
    match v {
        ValueView::Vector(items) => bounded(items, n),
        ValueView::Object(entries) => entries_bounded(entries, n),
        ValueView::Function(f) => f.environment < n,
        ValueView::Class(c) => option_bounded(c.parent, n) && bounded(c.traits, n)
            && entries_bounded(c.methods, n) && entries_bounded(c.properties, n),
        ValueView::Enum(e) => entries_bounded(e.variants, n),
        ValueView::Coroutine(c) => c.function < n && context_bounded(c.context, n)
            && option_bounded(c.result, n),
        ValueView::Handler(h) => h.handler < n && saved_bounded(h.resume_point, n),
        _ => true,
    }
}

impl HeapView {
    /// No cell is dead, the free-list is empty, and every handle in a cell
    /// names a cell.
    pub open spec fn closed(self) -> bool {
        &&& self.free.len() == 0
        &&& forall|i: int|
            0 <= i < self.cells.len() ==> (#[trigger] self.cells[i]).is_some() && value_bounded(
                self.cells[i].unwrap(),
                self.cells.len(),
            )
    }
}

impl VmView {
    /// The heap is closed, every handle that the machine holds outside the
    /// heap names a cell, and every waiting fiber waits for one running
    /// coroutine.
    pub open spec fn closed(self) -> bool {
        &&& self.heap.closed()
        &&& self.resumers.len() == self.coroutines.len()
        &&& self.globals < self.heap.cells.len()
        &&& context_bounded(self.context, self.heap.cells.len())
        &&& forall|k: int|
            0 <= k < self.resumers.len() ==> context_bounded(
                #[trigger] self.resumers[k],
                self.heap.cells.len(),
            )
        &&& bounded(self.coroutines, self.heap.cells.len())
    }
}

/// Handles below `n` are below anything larger.
pub proof fn lemma_bounded_grows(handles: Seq<usize>, n: nat, m: nat)
    requires
        bounded(handles, n),
        n <= m,
    ensures
        bounded(handles, m),
{
}

/// A context bounded by `n` is bounded by anything larger.
pub proof fn lemma_context_bounded_grows(c: ContextView, n: nat, m: nat)
    requires
        context_bounded(c, n),
        n <= m,
    ensures
        context_bounded(c, m),
{
    assert forall|k: int| 0 <= k < c.call_stack.len() implies frame_bounded(
        #[trigger] c.call_stack[k],
        m,
    ) by {
        assert(frame_bounded(c.call_stack[k], n));
    }
}

/// A value bounded by `n` is bounded by anything larger.
pub proof fn lemma_value_bounded_grows(v: ValueView, n: nat, m: nat)
    requires
        value_bounded(v, n),
        n <= m,
    ensures
        value_bounded(v, m),
{
    match v {
        ValueView::Object(entries) => {
            assert forall|k: int| 0 <= k < entries.len() implies (#[trigger] entries[k]).1 < m by {
                assert(entries[k].1 < n);
            }
        },
        ValueView::Class(c) => {
            assert forall|k: int| 0 <= k < c.methods.len() implies (#[trigger] c.methods[k]).1
                < m by {
                assert(c.methods[k].1 < n);
            }
            assert forall|k: int| 0 <= k < c.properties.len() implies (
            #[trigger] c.properties[k]).1 < m by {
                assert(c.properties[k].1 < n);
            }
        },
        ValueView::Enum(e) => {
            assert forall|k: int| 0 <= k < e.variants.len() implies (#[trigger] e.variants[k]).1
                < m by {
                assert(e.variants[k].1 < n);
            }
        },
        ValueView::Coroutine(c) => {
            lemma_context_bounded_grows(c.context, n, m);
        },
        ValueView::Handler(h) => {
            match h.resume_point {
                Some(c) => {
                    lemma_context_bounded_grows(c, n, m);
                },
                None => {},
            }
        },
        _ => {},
    }
}

/// Storing a bounded handle in bounded entries leaves them bounded.
pub proof fn lemma_store_bounded(entries: Seq<(Seq<char>, usize)>, name: Seq<char>, h: usize, n: nat)
    requires
        entries_bounded(entries, n),
        h < n,
    ensures
        entries_bounded(entry_store(entries, name, h), n),
{
    lemma_entry_index(entries, name);
    let stored = entry_store(entries, name, h);
    assert forall|k: int| 0 <= k < stored.len() implies (#[trigger] stored[k]).1 < n by {
        match entry_index(entries, name) {
            Some(i) => {
                if k != i {
                    assert(stored[k] == entries[k]);
                }
            },
            None => {
                if k < entries.len() {
                    assert(stored[k] == entries[k]);
                }
            },
        }
    }
}

/// What bounded entries bind a name to is bounded.
pub proof fn lemma_lookup_bounded(entries: Seq<(Seq<char>, usize)>, name: Seq<char>, n: nat)
    requires
        entries_bounded(entries, n),
    ensures
        match entry_lookup(entries, name) {
            Some(h) => h < n,
            None => true,
        },
{
    lemma_entry_index(entries, name);
}

/// The handles of a stack of frames are bounded exactly where the frames
/// are.
pub proof fn lemma_frames_bounded(frames: Seq<NyarFrame>, n: nat)
    ensures
        frames_bounded(frames, n) <==> bounded(frames_handles(frames), n),
    decreases frames.len(),
{
    if frames.len() > 0 {
        let front = frames.drop_last();
        let last = frames.last();
        lemma_frames_bounded(front, n);
        let a = frames_handles(front);
        let b = last.handles();
        if frames_bounded(frames, n) {
            assert forall|k: int| 0 <= k < front.len() implies frame_bounded(
                #[trigger] front[k],
                n,
            ) by {
                assert(front[k] == frames[k]);
            }
            assert(frame_bounded(frames[frames.len() - 1], n));
            assert forall|k: int| 0 <= k < (a + b).len() implies #[trigger] (a + b)[k] < n by {
                if k < a.len() {
                    assert((a + b)[k] == a[k]);
                } else {
                    assert((a + b)[k] == b[k - a.len()]);
                }
            }
        }
        if bounded(frames_handles(frames), n) {
            assert forall|k: int| 0 <= k < a.len() implies #[trigger] a[k] < n by {
                assert((a + b)[k] == a[k]);
            }
            assert forall|k: int| 0 <= k < b.len() implies #[trigger] b[k] < n by {
                assert((a + b)[a.len() + k] == b[k]);
            }
            assert(b[0] == last.function);
            match last.kind {
                FrameKind::Handler { record, position } => {
                    assert(b[1] == record);
                },
                _ => {},
            }
            assert forall|k: int| 0 <= k < frames.len() implies frame_bounded(
                #[trigger] frames[k],
                n,
            ) by {
                if k < front.len() {
                    assert(front[k] == frames[k]);
                }
            }
        }
    }
}

/// A concatenation is bounded exactly where both parts are.
pub proof fn lemma_concat_bounded(a: Seq<usize>, b: Seq<usize>, n: nat)
    ensures
        bounded(a + b, n) <==> bounded(a, n) && bounded(b, n),
{
    if bounded(a + b, n) {
        assert forall|k: int| 0 <= k < a.len() implies #[trigger] a[k] < n by {
            assert((a + b)[k] == a[k]);
        }
        assert forall|k: int| 0 <= k < b.len() implies #[trigger] b[k] < n by {
            assert((a + b)[a.len() + k] == b[k]);
        }
    }
    if bounded(a, n) && bounded(b, n) {
        assert forall|k: int| 0 <= k < (a + b).len() implies #[trigger] (a + b)[k] < n by {
            if k < a.len() {
                assert((a + b)[k] == a[k]);
            } else {
                assert((a + b)[k] == b[k - a.len()]);
            }
        }
    }
}

/// The handles of a context are bounded exactly where the context is.
pub proof fn lemma_context_bounded(c: ContextView, n: nat)
    ensures
        context_bounded(c, n) <==> bounded(c.handles(), n),
{
    let a = c.value_stack;
    let b = frames_handles(c.call_stack);
    let e = c.environment_stack;
    let h = c.effect_handlers;
    lemma_frames_bounded(c.call_stack, n);
    lemma_concat_bounded(a, b, n);
    lemma_concat_bounded(a + b, e, n);
    lemma_concat_bounded(a + b + e, h, n);
}

/// The values of entries are bounded exactly where the entries are.
pub proof fn lemma_entries_bounded(entries: Seq<(Seq<char>, usize)>, n: nat)
    ensures
        entries_bounded(entries, n) <==> bounded(entry_values(entries), n),
{
    if entries_bounded(entries, n) {
        assert forall|k: int| 0 <= k < entry_values(entries).len() implies #[trigger] entry_values(
            entries,
        )[k] < n by {
            assert(entries[k].1 < n);
        }
    }
    if bounded(entry_values(entries), n) {
        assert forall|k: int| 0 <= k < entries.len() implies (#[trigger] entries[k]).1 < n by {
            assert(entry_values(entries)[k] < n);
        }
    }
}

/// The handles of a value are bounded exactly where the value is.
pub proof fn lemma_value_bounded(v: ValueView, n: nat)
    ensures
        value_bounded(v, n) <==> bounded(v.handles(), n),
{
    match v {
        ValueView::Vector(items) => {},
        ValueView::Object(entries) => {
            lemma_entries_bounded(entries, n);
        },
        ValueView::Function(f) => {
            assert(seq![f.environment][0] == f.environment);
        },
        ValueView::Class(c) => {
            let a = option_handles(c.parent);
            let b = c.traits;
            let m = entry_values(c.methods);
            let p = entry_values(c.properties);
            lemma_entries_bounded(c.methods, n);
            lemma_entries_bounded(c.properties, n);
            lemma_concat_bounded(a, b, n);
            lemma_concat_bounded(a + b, m, n);
            lemma_concat_bounded(a + b + m, p, n);
            match c.parent {
                Some(i) => {
                    assert(a[0] == i);
                },
                None => {},
            }
        },
        ValueView::Enum(e) => {
            lemma_entries_bounded(e.variants, n);
        },
        ValueView::Coroutine(c) => {
            let a = seq![c.function];
            let b = c.context.handles();
            let r = option_handles(c.result);
            lemma_context_bounded(c.context, n);
            lemma_concat_bounded(a, b, n);
            lemma_concat_bounded(a + b, r, n);
            assert(a[0] == c.function);
            match c.result {
                Some(i) => {
                    assert(r[0] == i);
                },
                None => {},
            }
        },
        ValueView::Handler(h) => {
            let a = seq![h.handler];
            let b = context_handles(h.resume_point);
            lemma_concat_bounded(a, b, n);
            assert(a[0] == h.handler);
            match h.resume_point {
                Some(c) => {
                    lemma_context_bounded(c, n);
                },
                None => {},
            }
        },
        _ => {},
    }
}

/// A part of bounded handles is bounded.
pub proof fn lemma_subrange_bounded(handles: Seq<usize>, from: int, to: int, n: nat)
    requires
        bounded(handles, n),
        0 <= from <= to <= handles.len(),
    ensures
        bounded(handles.subrange(from, to), n),
{
    assert forall|k: int| 0 <= k < to - from implies #[trigger] handles.subrange(from, to)[k]
        < n by {
        assert(handles.subrange(from, to)[k] == handles[from + k]);
    }
}

/// Bounded handles with one more bounded handle are bounded.
pub proof fn lemma_push_bounded(handles: Seq<usize>, h: usize, n: nat)
    requires
        bounded(handles, n),
        h < n,
    ensures
        bounded(handles.push(h), n),
{
    assert forall|k: int| 0 <= k < handles.len() + 1 implies #[trigger] handles.push(h)[k] < n by {
        if k < handles.len() {
            assert(handles.push(h)[k] == handles[k]);
        }
    }
}

/// In a closed heap every handle below the length dereferences to a
/// bounded value.
pub proof fn lemma_closed_deref(heap: HeapView, h: usize)
    requires
        heap.closed(),
        h < heap.cells.len(),
    ensures
        heap.lookup(h).is_some(),
        heap.deref(h).is_ok(),
        value_bounded(heap.lookup(h).unwrap(), heap.cells.len()),
{
    assert(heap.cells[h as int].is_some());
}

/// A closed heap with one more bounded value is closed; the new cell is
/// the last one.
pub proof fn lemma_closed_allocate(heap: HeapView, v: ValueView)
    requires
        heap.closed(),
        value_bounded(v, heap.cells.len() + 1),
    ensures
        heap.allocate(v).closed(),
        heap.allocate(v).cells.len() == heap.cells.len() + 1,
        heap.next_index() < heap.cells.len() + 1,
        heap.allocate(v).cells == heap.cells.push(Some(v)),
{
    let after = heap.allocate(v);
    assert forall|i: int| 0 <= i < after.cells.len() implies (#[trigger] after.cells[i]).is_some()
        && value_bounded(after.cells[i].unwrap(), after.cells.len()) by {
        if i < heap.cells.len() {
            assert(after.cells[i] == heap.cells[i]);
            lemma_value_bounded_grows(heap.cells[i].unwrap(), heap.cells.len(), after.cells.len());
        }
    }
}

/// A closed heap with a bounded value stored in one of its cells is closed.
pub proof fn lemma_closed_store(heap: HeapView, i: usize, v: ValueView)
    requires
        heap.closed(),
        i < heap.cells.len(),
        value_bounded(v, heap.cells.len()),
    ensures
        heap.store(i, v).closed(),
        heap.store(i, v).cells.len() == heap.cells.len(),
{
    let after = heap.store(i, v);
    assert forall|k: int| 0 <= k < after.cells.len() implies (#[trigger] after.cells[k]).is_some()
        && value_bounded(after.cells[k].unwrap(), after.cells.len()) by {
        if k != i {
            assert(after.cells[k] == heap.cells[k]);
        }
    }
}

impl VmView {
    /// A closed machine with a bounded handle pushed is closed.
    pub proof fn lemma_closed_push(self, h: usize)
        requires
            self.closed(),
            h < self.heap.cells.len(),
        ensures
            self.push(h).closed(),
            self.push(h).heap == self.heap,
    {
        lemma_push_bounded(self.stack(), h, self.heap.cells.len());
    }

    /// A closed machine with values dropped from its stack is closed.
    pub proof fn lemma_closed_drop(self, n: int)
        requires
            self.closed(),
            0 <= n <= self.stack().len(),
        ensures
            self.drop(n).closed(),
            self.drop(n).heap == self.heap,
    {
        lemma_subrange_bounded(self.stack(), 0, self.stack().len() - n, self.heap.cells.len());
    }

    /// The values on the stack of a closed machine name cells.
    pub proof fn lemma_closed_top(self, k: int)
        requires
            self.closed(),
            0 <= k < self.stack().len(),
        ensures
            self.top(k) < self.heap.cells.len(),
            self.heap.deref(self.top(k)).is_ok(),
            value_bounded(self.heap.lookup(self.top(k)).unwrap(), self.heap.cells.len()),
    {
        assert(self.stack()[self.stack().len() - 1 - k] < self.heap.cells.len());
        lemma_closed_deref(self.heap, self.top(k));
    }

    /// A closed machine stays closed when its heap is replaced by a closed
    /// heap that is at least as long.
    pub proof fn lemma_closed_heap(self, heap: HeapView)
        requires
            self.closed(),
            heap.closed(),
            heap.cells.len() >= self.heap.cells.len(),
        ensures
            self.with_heap(heap).closed(),
    {
        let n = self.heap.cells.len();
        let m = heap.cells.len();
        lemma_context_bounded_grows(self.context, n, m);
        assert forall|k: int| 0 <= k < self.resumers.len() implies context_bounded(
            #[trigger] self.resumers[k],
            m,
        ) by {
            lemma_context_bounded_grows(self.resumers[k], n, m);
        }
    }

    /// A closed machine with one more bounded value allocated is closed.
    pub proof fn lemma_closed_allocated(self, v: ValueView)
        requires
            self.closed(),
            value_bounded(v, self.heap.cells.len() + 1),
        ensures
            self.allocated(v).closed(),
            self.allocated(v).heap.cells.len() == self.heap.cells.len() + 1,
            self.allocated(v).context == self.context,
            self.heap.next_index() < self.heap.cells.len() + 1,
    {
        lemma_closed_allocate(self.heap, v);
        self.lemma_closed_heap(self.heap.allocate(v));
    }

    /// A closed machine with one more bounded value allocated and pushed is
    /// closed.
    pub proof fn lemma_closed_alloc_push(self, v: ValueView)
        requires
            self.closed(),
            value_bounded(v, self.heap.cells.len() + 1),
        ensures
            self.alloc_push(v).closed(),
            self.alloc_push(v).heap.cells.len() == self.heap.cells.len() + 1,
    {
        self.lemma_closed_allocated(v);
        self.allocated(v).lemma_closed_push(self.heap.next_index());
    }

    /// A closed machine with a bounded value stored in a cell is closed.
    pub proof fn lemma_closed_stored(self, i: usize, v: ValueView)
        requires
            self.closed(),
            i < self.heap.cells.len(),
            value_bounded(v, self.heap.cells.len()),
        ensures
            self.with_heap(self.heap.store(i, v)).closed(),
            self.with_heap(self.heap.store(i, v)).heap.cells.len() == self.heap.cells.len(),
    {
        lemma_closed_store(self.heap, i, v);
        self.lemma_closed_heap(self.heap.store(i, v));
    }
}

} // verus!
