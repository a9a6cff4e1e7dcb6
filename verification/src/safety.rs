//! Handle safety: a closed machine stays closed through every instruction
//! and every collection, and no instruction of a closed machine fails
//! because a handle names a dead or a missing cell.

use crate::call::{call_environment, left, object_entries, parameter_names, truncated};
use crate::closed::{
    bounded, context_bounded, entries_bounded, frame_bounded, frames_bounded,
    lemma_closed_deref, lemma_context_bounded_grows, lemma_lookup_bounded, lemma_push_bounded,
    lemma_store_bounded, lemma_subrange_bounded, value_bounded,
};
use crate::context::{ContextView, FrameKind, NyarFrame};
use crate::error::ErrorView;
use crate::heap::HeapView;
use crate::instruction::{ConstantValue, FlowView, Instruction};
use crate::object::{entries_bound, entries_merged, entry_store};
use crate::scope::{binding_scope, lemma_binding_scope, scope_get};
use crate::value::ValueView;
use crate::vm::{constant_view, Outcome, VmView};
use vstd::prelude::*;

verus! {

/// Whether the outcome of an instruction is a closed machine and no
/// failure of a dereference.
pub open spec fn safe(outcome: Outcome) -> bool {
    outcome.0.closed() && !(outcome.1 matches Err(ErrorView::UseAfterFree(_)))
}

/// Whether a constant can be pushed on a machine with `n` cells: a
/// reference must name one of them.
pub open spec fn constant_fits(c: ConstantValue, n: nat) -> bool {
    match c {
        ConstantValue::Reference(h) => h < n,
        _ => true,
    }
}

impl VmView {
    proof fn lemma_safe_push_constant(self, c: ConstantValue)
        requires
            self.closed(),
            constant_fits(c, self.heap.cells.len()),
        ensures
            safe(self.push_constant(c)),
    {
        match c {
            ConstantValue::Reference(h) => {
                self.lemma_closed_push(h);
            },
            _ => {
                self.lemma_closed_alloc_push(constant_view(c));
            },
        }
    }

    proof fn lemma_safe_pop(self)
        requires
            self.closed(),
        ensures
            safe(self.pop()),
    {
        if self.stack().len() >= 1 {
            self.lemma_closed_drop(1);
        }
    }

    proof fn lemma_safe_dup(self)
        requires
            self.closed(),
        ensures
            safe(self.dup()),
    {
        if self.stack().len() >= 1 {
            self.lemma_closed_top(0);
            self.lemma_closed_push(self.top(0));
        }
    }

    proof fn lemma_safe_swap(self)
        requires
            self.closed(),
        ensures
            safe(self.swap()),
    {
        if self.stack().len() >= 2 {
            self.lemma_closed_top(0);
            self.lemma_closed_top(1);
            self.lemma_closed_drop(2);
            self.drop(2).lemma_closed_push(self.top(0));
            self.drop(2).push(self.top(0)).lemma_closed_push(self.top(1));
        }
    }

    proof fn lemma_safe_jump(self, offset: isize, length: nat)
        requires
            self.closed(),
        ensures
            safe(self.jump(offset, length)),
    {
    }

    proof fn lemma_safe_jump_if_false(self, offset: isize, length: nat)
        requires
            self.closed(),
        ensures
            safe(self.jump_if_false(offset, length)),
    {
        if self.stack().len() >= 1 {
            self.lemma_closed_top(0);
            self.lemma_closed_drop(1);
            self.drop(1).lemma_safe_jump(offset, length);
        }
    }

    proof fn lemma_safe_get_index(self, index: usize)
        requires
            self.closed(),
        ensures
            safe(self.get_index(index)),
    {
        if self.stack().len() >= 1 {
            self.lemma_closed_top(0);
            self.lemma_closed_drop(1);
            match self.heap.deref(self.top(0)) {
                Ok(ValueView::Vector(items)) => {
                    if index < items.len() {
                        assert(items[index as int] < self.heap.cells.len());
                        self.drop(1).lemma_closed_push(items[index as int]);
                    }
                },
                _ => {},
            }
        }
    }

    proof fn lemma_safe_set_index(self, index: usize)
        requires
            self.closed(),
        ensures
            safe(self.set_index(index)),
    {
        if self.stack().len() >= 2 {
            let value = self.top(0);
            let target = self.top(1);
            self.lemma_closed_top(0);
            self.lemma_closed_top(1);
            self.lemma_closed_drop(2);
            match self.heap.deref(target) {
                Ok(ValueView::Vector(items)) => {
                    if index < items.len() {
                        let updated = items.update(index as int, value);
                        assert forall|k: int| 0 <= k < updated.len() implies #[trigger] updated[k]
                            < self.heap.cells.len() by {
                            if k != index {
                                assert(updated[k] == items[k]);
                            }
                        }
                        self.drop(2).lemma_closed_stored(target, ValueView::Vector(updated));
                        self.drop(2).with_heap(
                            self.heap.store(target, ValueView::Vector(updated)),
                        ).lemma_closed_push(value);
                    }
                },
                _ => {},
            }
        }
    }

    proof fn lemma_safe_get_property(self, name: Seq<char>)
        requires
            self.closed(),
        ensures
            safe(self.get_property(name)),
    {
        if self.stack().len() >= 1 {
            self.lemma_closed_top(0);
            self.lemma_closed_drop(1);
            match self.heap.deref(self.top(0)) {
                Ok(ValueView::Object(entries)) => {
                    lemma_lookup_bounded(entries, name, self.heap.cells.len());
                    match crate::object::entry_lookup(entries, name) {
                        Some(h) => {
                            self.drop(1).lemma_closed_push(h);
                        },
                        None => {},
                    }
                },
                _ => {},
            }
        }
    }

    proof fn lemma_safe_set_property(self, name: Seq<char>)
        requires
            self.closed(),
        ensures
            safe(self.set_property(name)),
    {
        if self.stack().len() >= 2 {
            let value = self.top(0);
            let target = self.top(1);
            self.lemma_closed_top(0);
            self.lemma_closed_top(1);
            self.lemma_closed_drop(2);
            match self.heap.deref(target) {
                Ok(ValueView::Object(entries)) => {
                    lemma_store_bounded(entries, name, value, self.heap.cells.len());
                    let stored = ValueView::Object(entry_store(entries, name, value));
                    self.drop(2).lemma_closed_stored(target, stored);
                    self.drop(2).with_heap(self.heap.store(target, stored)).lemma_closed_push(
                        value,
                    );
                },
                _ => {},
            }
        }
    }

    proof fn lemma_safe_create_array(self, size: usize)
        requires
            self.closed(),
        ensures
            safe(self.create_array(size)),
    {
        if self.stack().len() >= size {
            let n = self.heap.cells.len();
            let items = self.stack().subrange(self.stack().len() - size, self.stack().len() as int);
            lemma_subrange_bounded(self.stack(), self.stack().len() - size, self.stack().len() as int, n);
            crate::closed::lemma_bounded_grows(items, n, n + 1);
            self.lemma_closed_drop(size as int);
            self.drop(size as int).lemma_closed_alloc_push(ValueView::Vector(items));
        }
    }

    /// The scopes of a closed machine name cells.
    proof fn lemma_scopes_bounded(self)
        requires
            self.closed(),
        ensures
            bounded(self.scopes(), self.heap.cells.len()),
    {
        assert forall|k: int| 0 <= k < self.scopes().len() implies #[trigger] self.scopes()[k]
            < self.heap.cells.len() by {
            if k > 0 {
                assert(self.scopes()[k] == self.context.environment_stack[k - 1]);
            }
        }
    }

    proof fn lemma_safe_push_variable(self, name: Seq<char>)
        requires
            self.closed(),
        ensures
            safe(self.push_variable(name)),
    {
        lemma_binding_scope(self.heap, self.scopes(), name);
        match binding_scope(self.heap, self.scopes(), name) {
            Some(d) => {
                let scope = self.scopes()[d];
                match self.heap.lookup(scope) {
                    Some(ValueView::Object(entries)) => {
                        assert(self.heap.cells[scope as int].is_some());
                        assert(value_bounded(self.heap.cells[scope as int].unwrap(), self.heap.cells.len()));
                        lemma_lookup_bounded(entries, name, self.heap.cells.len());
                        self.lemma_closed_push(scope_get(self.heap, scope, name).unwrap());
                    },
                    _ => {},
                }
            },
            None => {},
        }
    }

    proof fn lemma_safe_store_variable(self, name: Seq<char>)
        requires
            self.closed(),
        ensures
            safe(self.store_variable(name)),
    {
        if self.stack().len() >= 1 {
            let value = self.top(0);
            let target = self.store_target(name);
            self.lemma_closed_top(0);
            self.lemma_closed_drop(1);
            match self.heap.lookup(target) {
                Some(ValueView::Object(entries)) => {
                    assert(self.heap.cells[target as int].is_some());
                    assert(value_bounded(self.heap.cells[target as int].unwrap(), self.heap.cells.len()));
                    lemma_store_bounded(entries, name, value, self.heap.cells.len());
                    self.drop(1).lemma_closed_stored(
                        target,
                        ValueView::Object(entry_store(entries, name, value)),
                    );
                },
                _ => {},
            }
        }
    }
}

/// Entries that bind names to bounded handles are bounded.
proof fn lemma_bound_bounded(names: Seq<Seq<char>>, handles: Seq<usize>, n: nat)
    requires
        bounded(handles, n),
    ensures
        entries_bounded(entries_bound(names, handles), n),
    decreases names.len(),
{
    if names.len() > 0 && names.len() == handles.len() {
        lemma_subrange_bounded(handles, 0, handles.len() - 1, n);
        lemma_bound_bounded(names.drop_last(), handles.drop_last(), n);
        lemma_store_bounded(
            entries_bound(names.drop_last(), handles.drop_last()),
            names.last(),
            handles.last(),
            n,
        );
    }
}

/// Bounded entries merged into bounded entries are bounded.
proof fn lemma_merged_bounded(base: Seq<(Seq<char>, usize)>, extra: Seq<(Seq<char>, usize)>, n: nat)
    requires
        entries_bounded(base, n),
        entries_bounded(extra, n),
    ensures
        entries_bounded(entries_merged(base, extra), n),
    decreases extra.len(),
{
    if extra.len() > 0 {
        let front = extra.drop_last();
        assert forall|k: int| 0 <= k < front.len() implies (#[trigger] front[k]).1 < n by {
            assert(front[k] == extra[k]);
        }
        lemma_merged_bounded(base, front, n);
        assert(extra[extra.len() - 1].1 < n);
        lemma_store_bounded(entries_merged(base, front), extra.last().0, extra.last().1, n);
    }
}

/// The entries of an object in a closed heap are bounded.
proof fn lemma_object_entries_bounded(heap: HeapView, h: usize)
    requires
        heap.closed(),
    ensures
        entries_bounded(object_entries(heap, h), heap.cells.len()),
{
    match heap.lookup(h) {
        Some(ValueView::Object(entries)) => {
            assert(heap.cells[h as int].is_some());
            assert(value_bounded(heap.cells[h as int].unwrap(), heap.cells.len()));
        },
        _ => {},
    }
}

/// A context that is cut back stays bounded.
proof fn lemma_truncated_bounded(handles: Seq<usize>, k: usize, n: nat)
    requires
        bounded(handles, n),
    ensures
        bounded(truncated(handles, k), n),
{
    if k <= handles.len() {
        lemma_subrange_bounded(handles, 0, k as int, n);
    }
}

/// Frames without the innermost ones stay bounded.
proof fn lemma_frames_prefix_bounded(frames: Seq<NyarFrame>, k: int, n: nat)
    requires
        frames_bounded(frames, n),
        0 <= k <= frames.len(),
    ensures
        frames_bounded(frames.subrange(0, k), n),
{
    assert forall|i: int| 0 <= i < k implies frame_bounded(
        #[trigger] frames.subrange(0, k)[i],
        n,
    ) by {
        assert(frames.subrange(0, k)[i] == frames[i]);
    }
}

/// Leaving the innermost frame with a bounded value leaves a bounded
/// context.
proof fn lemma_left_bounded(c: ContextView, value: usize, n: nat)
    requires
        context_bounded(c, n),
        c.call_stack.len() > 0,
        value < n,
    ensures
        context_bounded(left(c, value), n),
{
    let frame = c.call_stack.last();
    lemma_truncated_bounded(c.value_stack, frame.base_pointer, n);
    lemma_push_bounded(truncated(c.value_stack, frame.base_pointer), value, n);
    lemma_truncated_bounded(c.environment_stack, frame.environment_depth, n);
    lemma_truncated_bounded(c.effect_handlers, frame.handler_depth, n);
    lemma_frames_prefix_bounded(c.call_stack, c.call_stack.len() - 1, n);
}

impl VmView {
    /// A closed machine with another bounded live context is closed.
    proof fn lemma_closed_context(self, c: ContextView)
        requires
            self.closed(),
            context_bounded(c, self.heap.cells.len()),
        ensures
            self.with_context(c).closed(),
    {
    }

    /// Entering a function keeps the machine closed.
    proof fn lemma_closed_enter(self, callee: usize, count: usize, extra: int, kind: FrameKind)
        requires
            self.closed(),
            0 <= extra,
            count + extra <= self.stack().len(),
            callee < self.heap.cells.len(),
            self.heap.lookup(callee) matches Some(ValueView::Function(_)),
            match kind {
                FrameKind::Handler { record, position } => record < self.heap.cells.len(),
                _ => true,
            },
        ensures
            self.enter(callee, count, extra, kind).closed(),
            self.enter(callee, count, extra, kind).heap.cells.len() == self.heap.cells.len() + 1,
            self.enter(callee, count, extra, kind).heap == self.drop(count + extra).heap.allocate(
                ValueView::Object(
                    call_environment(
                        self.heap,
                        self.heap.lookup(callee).unwrap()->Function_0,
                        self.stack().subrange(
                            self.stack().len() - count,
                            self.stack().len() as int,
                        ),
                    ),
                ),
            ),
            self.enter(callee, count, extra, kind).resumers == self.resumers,
            self.enter(callee, count, extra, kind).coroutines == self.coroutines,
    {
        let n = self.heap.cells.len();
        let f = self.heap.lookup(callee).unwrap()->Function_0;
        let arguments = self.stack().subrange(self.stack().len() - count, self.stack().len() as int);
        lemma_subrange_bounded(self.stack(), self.stack().len() - count, self.stack().len() as int, n);
        lemma_bound_bounded(f.parameters, arguments, n);
        lemma_object_entries_bounded(self.heap, f.environment);
        lemma_merged_bounded(
            entries_bound(f.parameters, arguments),
            object_entries(self.heap, f.environment),
            n,
        );
        let environment = call_environment(self.heap, f, arguments);
        assert forall|k: int| 0 <= k < environment.len() implies (#[trigger] environment[k]).1 < n
            + 1 by {
            assert(environment[k].1 < n);
        }
        let dropped = self.drop(count + extra);
        self.lemma_closed_drop(count + extra);
        let frame = crate::call::call_frame(dropped.context, callee, f, kind);
        let made = dropped.allocated(ValueView::Object(environment));
        dropped.lemma_closed_allocated(ValueView::Object(environment));
        let index = dropped.heap.next_index();
        let context = crate::call::entered(made.context, frame, index);
        lemma_push_bounded(made.context.environment_stack, index, n + 1);
        assert forall|k: int| 0 <= k < context.call_stack.len() implies frame_bounded(
            #[trigger] context.call_stack[k],
            n + 1,
        ) by {
            if k < made.context.call_stack.len() {
                assert(context.call_stack[k] == made.context.call_stack[k]);
            }
        }
        made.lemma_closed_context(context);
    }

    proof fn lemma_safe_call(self, count: usize, length: nat)
        requires
            self.closed(),
        ensures
            safe(self.call(count, length)),
    {
        if self.stack().len() > count {
            let callee = self.top(count as int);
            self.lemma_closed_top(count as int);
            match self.call_error(callee, count, length) {
                Some(e) => {},
                None => {
                    self.lemma_closed_enter(callee, count, 1, FrameKind::Call);
                },
            }
        }
    }

    proof fn lemma_safe_create_function(
        self,
        name: Option<Seq<char>>,
        parameter_count: usize,
        body_size: usize,
        length: nat,
    )
        requires
            self.closed(),
        ensures
            safe(self.create_function(name, parameter_count, body_size, length)),
    {
        let n = self.heap.cells.len();
        let start = self.context.instruction_pointer;
        if start + body_size <= length && self.stack().len() >= parameter_count {
            let handles = self.stack().subrange(
                self.stack().len() - parameter_count,
                self.stack().len() as int,
            );
            lemma_subrange_bounded(
                self.stack(),
                self.stack().len() - parameter_count,
                self.stack().len() as int,
                n,
            );
            lemma_names_safe(self.heap, handles);
            match parameter_names(self.heap, handles) {
                Err(e) => {},
                Ok(parameters) => {
                    let captured = if self.context.environment_stack.len() > 0 {
                        object_entries(self.heap, self.context.environment_stack.last())
                    } else {
                        Seq::empty()
                    };
                    if self.context.environment_stack.len() > 0 {
                        lemma_object_entries_bounded(
                            self.heap,
                            self.context.environment_stack.last(),
                        );
                    }
                    assert forall|k: int| 0 <= k < captured.len() implies (#[trigger] captured[k]).1
                        < n + 1 by {
                        assert(captured[k].1 < n);
                    }
                    let dropped = self.drop(parameter_count as int);
                    self.lemma_closed_drop(parameter_count as int);
                    dropped.lemma_closed_allocated(ValueView::Object(captured));
                    let with_env = dropped.allocated(ValueView::Object(captured));
                    let function = crate::value::FunctionView {
                        name,
                        parameters,
                        body_start: start,
                        body_size,
                        environment: dropped.heap.next_index(),
                    };
                    with_env.lemma_closed_alloc_push(ValueView::Function(function));
                },
            }
        }
    }
}

/// Reading names from bounded handles in a closed heap does not fail on a
/// dereference.
proof fn lemma_names_safe(heap: HeapView, handles: Seq<usize>)
    requires
        heap.closed(),
        bounded(handles, heap.cells.len()),
    ensures
        !(parameter_names(heap, handles) matches Err(ErrorView::UseAfterFree(_))),
    decreases handles.len(),
{
    if handles.len() > 0 {
        lemma_subrange_bounded(handles, 0, handles.len() - 1, heap.cells.len());
        lemma_names_safe(heap, handles.drop_last());
        lemma_closed_deref(heap, handles.last());
    }
}

/// Dropping the frames that do not hold a target leaves a bounded context.
proof fn lemma_unwound_bounded(c: ContextView, target: usize, n: nat)
    requires
        context_bounded(c, n),
    ensures
        match crate::control::unwound(c, target) {
            Some(after) => context_bounded(after, n),
            None => true,
        },
    decreases c.call_stack.len(),
{
    if c.call_stack.len() > 0 {
        let frame = c.call_stack.last();
        if !crate::control::frame_holds(frame, target) && frame.kind == FrameKind::Call {
            lemma_truncated_bounded(c.value_stack, frame.base_pointer, n);
            lemma_truncated_bounded(c.environment_stack, frame.environment_depth, n);
            lemma_truncated_bounded(c.effect_handlers, frame.handler_depth, n);
            lemma_frames_prefix_bounded(c.call_stack, c.call_stack.len() - 1, n);
            lemma_unwound_bounded(
                ContextView {
                    instruction_pointer: c.instruction_pointer,
                    value_stack: truncated(c.value_stack, frame.base_pointer),
                    call_stack: c.call_stack.drop_last(),
                    environment_stack: truncated(c.environment_stack, frame.environment_depth),
                    effect_handlers: truncated(c.effect_handlers, frame.handler_depth),
                },
                target,
                n,
            );
        }
    }
}

impl VmView {
    proof fn lemma_safe_leave_to(self, target: usize, label: Option<String>, flow: FlowView)
        requires
            self.closed(),
        ensures
            safe(self.leave_to(target, label, flow)),
    {
        lemma_unwound_bounded(self.context, target, self.heap.cells.len());
    }

    proof fn lemma_safe_loops(self, code: Seq<Instruction>, label: Option<String>)
        requires
            self.closed(),
        ensures
            safe(self.break_loop(code, label)),
            safe(self.continue_loop(code, label)),
            safe(self.loop_end(code)),
    {
        match crate::instruction::loop_end_scan(
            code,
            self.context.instruction_pointer as int,
            0,
            label,
        ) {
            Some(e) => {
                self.lemma_safe_leave_to((e + 1) as usize, label, FlowView::Break);
            },
            None => {},
        }
        match crate::instruction::loop_start_scan(
            code,
            self.context.instruction_pointer - 1,
            0,
            label,
        ) {
            Some(s) => {
                self.lemma_safe_leave_to((s + 1) as usize, label, FlowView::Continue);
            },
            None => {},
        }
    }

    proof fn lemma_safe_match_case(self, code: Seq<Instruction>, fall_through: bool)
        requires
            self.closed(),
        ensures
            safe(self.match_case(code, fall_through)),
    {
        if self.stack().len() >= 1 {
            self.lemma_closed_top(0);
            self.lemma_closed_drop(1);
        }
    }

    /// Handing the live context over to a coroutine keeps the machine
    /// closed.
    proof fn lemma_closed_handed_over(self, c: usize, context: ContextView)
        requires
            self.closed(),
            c < self.heap.cells.len(),
            context_bounded(context, self.heap.cells.len()),
        ensures
            self.handed_over(c, context).closed(),
    {
        let after = self.handed_over(c, context);
        lemma_push_bounded(self.coroutines, c, self.heap.cells.len());
        assert forall|k: int| 0 <= k < after.resumers.len() implies context_bounded(
            #[trigger] after.resumers[k],
            after.heap.cells.len(),
        ) by {
            if k < self.resumers.len() {
                assert(after.resumers[k] == self.resumers[k]);
            }
        }
    }

    /// Handing control back to the resumer keeps the machine closed.
    proof fn lemma_closed_handed_back(self)
        requires
            self.closed(),
            self.coroutines.len() > 0,
        ensures
            self.handed_back().closed(),
            self.handed_back().heap == self.heap,
    {
        let after = self.handed_back();
        assert(context_bounded(self.resumers[self.resumers.len() - 1], self.heap.cells.len()));
        lemma_subrange_bounded(self.coroutines, 0, self.coroutines.len() - 1, self.heap.cells.len());
        assert forall|k: int| 0 <= k < after.resumers.len() implies context_bounded(
            #[trigger] after.resumers[k],
            after.heap.cells.len(),
        ) by {
            assert(after.resumers[k] == self.resumers[k]);
        }
    }

    proof fn lemma_safe_create_coroutine(self)
        requires
            self.closed(),
        ensures
            safe(self.create_coroutine()),
    {
        if self.stack().len() >= 1 {
            self.lemma_closed_top(0);
            self.lemma_closed_drop(1);
            match self.heap.deref(self.top(0)) {
                Ok(ValueView::Function(_)) => {
                    self.drop(1).lemma_closed_alloc_push(
                        ValueView::Coroutine(
                            crate::value::CoroutineView {
                                state: crate::value::CoroutineState::Initial,
                                function: self.top(0),
                                context: crate::coroutine::empty_context(),
                                result: None,
                            },
                        ),
                    );
                },
                _ => {},
            }
        }
    }

    proof fn lemma_safe_start_coroutine(self, c: usize, record: crate::value::CoroutineView, length: nat)
        requires
            self.closed(),
            c < self.heap.cells.len(),
            self.heap.lookup(c) == Some(ValueView::Coroutine(record)),
        ensures
            safe(self.start_coroutine(c, record, length)),
    {
        let n = self.heap.cells.len();
        lemma_closed_deref(self.heap, c);
        lemma_closed_deref(self.heap, record.function);
        match self.heap.deref(record.function) {
            Ok(ValueView::Function(f)) => {
                if self.stack().len() > f.parameters.len() && f.body_start + f.body_size <= length {
                    let count = f.parameters.len();
                    let arguments = self.stack().subrange(
                        self.stack().len() - 1 - count,
                        self.stack().len() - 1,
                    );
                    lemma_subrange_bounded(
                        self.stack(),
                        self.stack().len() - 1 - count,
                        self.stack().len() - 1,
                        n,
                    );
                    lemma_bound_bounded(f.parameters, arguments, n);
                    lemma_object_entries_bounded(self.heap, f.environment);
                    lemma_merged_bounded(
                        entries_bound(f.parameters, arguments),
                        object_entries(self.heap, f.environment),
                        n,
                    );
                    let environment = call_environment(self.heap, f, arguments);
                    assert forall|k: int| 0 <= k < environment.len() implies (
                    #[trigger] environment[k]).1 < n + 1 by {
                        assert(environment[k].1 < n);
                    }
                    let resumer = self.drop(count as int + 1);
                    self.lemma_closed_drop(count as int + 1);
                    resumer.lemma_closed_allocated(ValueView::Object(environment));
                    let made = resumer.allocated(ValueView::Object(environment));
                    let index = resumer.heap.next_index();
                    let running_record = ValueView::Coroutine(
                        crate::value::CoroutineView {
                            state: crate::value::CoroutineState::Running,
                            ..record
                        },
                    );
                    lemma_context_bounded_grows(record.context, n, n + 1);
                    made.lemma_closed_stored(c, running_record);
                    let running = made.with_heap(made.heap.store(c, running_record));
                    let frame = NyarFrame {
                        return_address: 0,
                        base_pointer: 0,
                        function: record.function,
                        body_start: f.body_start,
                        body_end: (f.body_start + f.body_size) as usize,
                        environment_depth: 0,
                        handler_depth: 0,
                        kind: FrameKind::Coroutine,
                    };
                    let context = ContextView {
                        instruction_pointer: f.body_start,
                        value_stack: Seq::empty(),
                        call_stack: seq![frame],
                        environment_stack: seq![index],
                        effect_handlers: Seq::empty(),
                    };
                    assert(context.call_stack[0] == frame);
                    assert(context.environment_stack[0] == index);
                    running.lemma_closed_handed_over(c, context);
                }
            },
            _ => {},
        }
    }

    proof fn lemma_safe_resume_coroutine(self, length: nat)
        requires
            self.closed(),
        ensures
            safe(self.resume_coroutine(length)),
    {
        if self.stack().len() >= 1 {
            let c = self.top(0);
            self.lemma_closed_top(0);
            match self.heap.deref(c) {
                Ok(ValueView::Coroutine(record)) => {
                    if (record.state == crate::value::CoroutineState::Initial || record.state
                        == crate::value::CoroutineState::Suspended) && self.resumers.len()
                        < self.max_call_depth {
                        if record.state == crate::value::CoroutineState::Initial {
                            self.lemma_safe_start_coroutine(c, record, length);
                        } else {
                            let running = ValueView::Coroutine(
                                crate::value::CoroutineView {
                                    state: crate::value::CoroutineState::Running,
                                    context: crate::coroutine::empty_context(),
                                    ..record
                                },
                            );
                            self.lemma_closed_drop(1);
                            self.drop(1).lemma_closed_stored(c, running);
                            self.drop(1).with_heap(
                                self.heap.store(c, running),
                            ).lemma_closed_handed_over(c, record.context);
                        }
                    }
                },
                _ => {},
            }
        }
    }

    proof fn lemma_safe_yield_coroutine(self, count: usize)
        requires
            self.closed(),
        ensures
            safe(self.yield_coroutine(count)),
    {
        let n = self.heap.cells.len();
        if self.stack().len() >= count && self.coroutines.len() > 0 && self.resumers.len() > 0 {
            let c = self.coroutines.last();
            assert(self.coroutines[self.coroutines.len() - 1] < n);
            lemma_closed_deref(self.heap, c);
            match self.heap.lookup(c) {
                Some(ValueView::Coroutine(record)) => {
                    let values = self.stack().subrange(
                        self.stack().len() - count,
                        self.stack().len() as int,
                    );
                    lemma_subrange_bounded(
                        self.stack(),
                        self.stack().len() - count,
                        self.stack().len() as int,
                        n,
                    );
                    let saved = self.drop(count as int).context;
                    self.lemma_closed_drop(count as int);
                    let suspended = ValueView::Coroutine(
                        crate::value::CoroutineView {
                            state: crate::value::CoroutineState::Suspended,
                            context: saved,
                            ..record
                        },
                    );
                    self.lemma_closed_stored(c, suspended);
                    let stored = self.with_heap(self.heap.store(c, suspended));
                    stored.lemma_closed_handed_back();
                    let back = stored.handed_back();
                    crate::closed::lemma_concat_bounded(back.stack(), values, n);
                    back.lemma_closed_context(
                        ContextView { value_stack: back.stack() + values, ..back.context },
                    );
                },
                _ => {},
            }
        }
    }

    /// Ending the running coroutine keeps the machine closed.
    proof fn lemma_closed_end_coroutine(
        self,
        state: crate::value::CoroutineState,
        result: Option<usize>,
        value: usize,
    )
        requires
            self.closed(),
            self.coroutines.len() > 0,
            value < self.heap.cells.len(),
            crate::closed::option_bounded(result, self.heap.cells.len()),
        ensures
            self.end_coroutine(state, result, value).closed(),
    {
        let n = self.heap.cells.len();
        let c = self.coroutines.last();
        assert(self.coroutines[self.coroutines.len() - 1] < n);
        lemma_closed_deref(self.heap, c);
        match self.heap.lookup(c) {
            Some(ValueView::Coroutine(record)) => {
                let ended = ValueView::Coroutine(
                    crate::value::CoroutineView {
                        state,
                        context: crate::coroutine::empty_context(),
                        result,
                        ..record
                    },
                );
                self.lemma_closed_stored(c, ended);
                let stored = self.with_heap(self.heap.store(c, ended));
                stored.lemma_closed_handed_back();
                stored.handed_back().lemma_closed_push(value);
            },
            _ => {
                self.lemma_closed_handed_back();
                self.handed_back().lemma_closed_push(value);
            },
        }
    }
}

/// The continuation of an aborted effect, unwound to the installing
/// frame, is bounded.
proof fn lemma_aborted_bounded(raiser: ContextView, depth: usize, value: usize, n: nat)
    requires
        context_bounded(raiser, n),
        value < n,
    ensures
        context_bounded(crate::effect::aborted(raiser, depth, value), n),
{
    if depth >= raiser.call_stack.len() {
        lemma_push_bounded(raiser.value_stack, value, n);
    } else {
        let frame = raiser.call_stack[depth as int];
        lemma_truncated_bounded(raiser.value_stack, frame.base_pointer, n);
        lemma_push_bounded(truncated(raiser.value_stack, frame.base_pointer), value, n);
        lemma_truncated_bounded(raiser.environment_stack, frame.environment_depth, n);
        lemma_truncated_bounded(raiser.effect_handlers, frame.handler_depth, n);
        lemma_frames_prefix_bounded(raiser.call_stack, depth as int, n);
    }
}

/// The pairs read from bounded handles in a closed heap are bounded, and
/// reading them does not fail on a dereference.
proof fn lemma_pairs_safe(heap: HeapView, handles: Seq<usize>, count: nat)
    requires
        heap.closed(),
        bounded(handles, heap.cells.len()),
        2 * count <= handles.len(),
    ensures
        match crate::create::property_pairs(heap, handles, count) {
            Ok(entries) => entries_bounded(entries, heap.cells.len()),
            Err(e) => !(e is UseAfterFree),
        },
    decreases count,
{
    if count > 0 {
        lemma_pairs_safe(heap, handles, (count - 1) as nat);
        let name = handles[2 * (count - 1)];
        let value = handles[2 * (count - 1) + 1];
        lemma_closed_deref(heap, name);
        match crate::create::property_pairs(heap, handles, (count - 1) as nat) {
            Ok(entries) => {
                match heap.deref(name) {
                    Ok(ValueView::String(s)) => {
                        lemma_store_bounded(entries, s, value, heap.cells.len());
                    },
                    _ => {},
                }
            },
            Err(e) => {},
        }
    }
}

impl VmView {
    /// What a variable of a closed machine is bound to names a cell.
    proof fn lemma_variable_bounded(self, name: Seq<char>)
        requires
            self.closed(),
        ensures
            match self.variable(name) {
                Some(h) => h < self.heap.cells.len(),
                None => true,
            },
    {
        lemma_binding_scope(self.heap, self.scopes(), name);
        match binding_scope(self.heap, self.scopes(), name) {
            Some(d) => {
                let scope = self.scopes()[d];
                match self.heap.lookup(scope) {
                    Some(ValueView::Object(entries)) => {
                        assert(self.heap.cells[scope as int].is_some());
                        assert(value_bounded(
                            self.heap.cells[scope as int].unwrap(),
                            self.heap.cells.len(),
                        ));
                        lemma_lookup_bounded(entries, name, self.heap.cells.len());
                    },
                    _ => {},
                }
            },
            None => {},
        }
    }

    /// The variables that a closed machine captures are bound to cells.
    proof fn lemma_captured_bounded(self, names: Seq<Seq<char>>)
        requires
            self.closed(),
        ensures
            match self.captured(names) {
                Ok(entries) => entries_bounded(entries, self.heap.cells.len()),
                Err(e) => !(e is UseAfterFree),
            },
        decreases names.len(),
    {
        if names.len() > 0 {
            self.lemma_captured_bounded(names.drop_last());
            self.lemma_variable_bounded(names.last());
            match self.captured(names.drop_last()) {
                Ok(entries) => {
                    match self.variable(names.last()) {
                        Some(h) => {
                            lemma_store_bounded(entries, names.last(), h, self.heap.cells.len());
                        },
                        None => {},
                    }
                },
                Err(e) => {},
            }
        }
    }

    proof fn lemma_safe_handle_effect(self, name: Seq<char>)
        requires
            self.closed(),
        ensures
            safe(self.handle_effect(name)),
    {
        let n = self.heap.cells.len();
        if self.stack().len() >= 1 {
            self.lemma_closed_top(0);
            self.lemma_closed_drop(1);
            match self.heap.deref(self.top(0)) {
                Ok(ValueView::Function(_)) => {
                    let record = ValueView::Handler(
                        crate::value::HandlerView {
                            name,
                            handler: self.top(0),
                            install_depth: self.context.call_stack.len() as usize,
                            resume_point: None,
                        },
                    );
                    self.drop(1).lemma_closed_allocated(record);
                    let made = self.drop(1).allocated(record);
                    lemma_push_bounded(
                        made.context.effect_handlers,
                        self.heap.next_index(),
                        n + 1,
                    );
                    made.lemma_closed_context(
                        ContextView {
                            effect_handlers: made.context.effect_handlers.push(
                                self.heap.next_index(),
                            ),
                            ..made.context
                        },
                    );
                },
                _ => {},
            }
        }
    }

    proof fn lemma_safe_raise_effect(self, name: Seq<char>, count: usize, length: nat)
        requires
            self.closed(),
        ensures
            safe(self.raise_effect(name, count, length)),
    {
        let n = self.heap.cells.len();
        if self.stack().len() >= count {
            crate::effect::lemma_handler_position(self.heap, self.context.effect_handlers, name);
            match crate::effect::handler_position(self.heap, self.context.effect_handlers, name) {
                None => {},
                Some(p) => {
                    let h = self.context.effect_handlers[p];
                    assert(h < n);
                    lemma_closed_deref(self.heap, h);
                    let record = self.heap.lookup(h).unwrap()->Handler_0;
                    lemma_closed_deref(self.heap, record.handler);
                    match self.call_error(record.handler, count, length) {
                        Some(e) => {},
                        None => {
                            let kind = FrameKind::Handler { record: h, position: p as usize };
                            self.lemma_closed_enter(record.handler, count, 0, kind);
                            let inside = self.enter(record.handler, count, 0, kind);
                            let raiser = self.drop(count as int).context;
                            self.lemma_closed_drop(count as int);
                            lemma_context_bounded_grows(raiser, n, n + 1);
                            let pending = ValueView::Handler(
                                crate::value::HandlerView { resume_point: Some(raiser), ..record },
                            );
                            inside.lemma_closed_stored(h, pending);
                            let stored = inside.with_heap(inside.heap.store(h, pending));
                            lemma_subrange_bounded(self.context.effect_handlers, 0, p, n);
                            crate::closed::lemma_bounded_grows(
                                self.context.effect_handlers.subrange(0, p),
                                n,
                                n + 1,
                            );
                            stored.lemma_closed_context(
                                ContextView {
                                    effect_handlers: self.context.effect_handlers.subrange(0, p),
                                    ..inside.context
                                },
                            );
                        },
                    }
                },
            }
        }
    }

    proof fn lemma_safe_resume_effect(self, count: usize)
        requires
            self.closed(),
        ensures
            safe(self.resume_effect(count)),
    {
        let n = self.heap.cells.len();
        if self.stack().len() >= count {
            crate::effect::lemma_handler_frame_bound(self.context.call_stack);
            match crate::effect::handler_frame(self.context.call_stack) {
                None => {},
                Some(i) => {
                    let h = self.context.call_stack[i].kind->Handler_record;
                    let position = self.context.call_stack[i].kind->Handler_position;
                    assert(frame_bounded(self.context.call_stack[i], n));
                    lemma_closed_deref(self.heap, h);
                    match self.heap.lookup(h) {
                        Some(ValueView::Handler(record)) => match record.resume_point {
                            Some(raiser) => {
                                let used = ValueView::Handler(
                                    crate::value::HandlerView { resume_point: None, ..record },
                                );
                                self.lemma_closed_stored(h, used);
                                let values = self.stack().subrange(
                                    self.stack().len() - count,
                                    self.stack().len() as int,
                                );
                                lemma_subrange_bounded(
                                    self.stack(),
                                    self.stack().len() - count,
                                    self.stack().len() as int,
                                    n,
                                );
                                crate::closed::lemma_concat_bounded(raiser.value_stack, values, n);
                                let chain = crate::effect::chain_without(
                                    raiser.effect_handlers,
                                    position,
                                );
                                assert forall|k: int| 0 <= k < chain.len() implies #[trigger] chain[k]
                                    < n by {
                                    if position < raiser.effect_handlers.len() {
                                        if k < position {
                                            assert(chain[k] == raiser.effect_handlers[k]);
                                        } else {
                                            assert(chain[k] == raiser.effect_handlers[k + 1]);
                                        }
                                    }
                                }
                                self.with_heap(self.heap.store(h, used)).lemma_closed_context(
                                    ContextView {
                                        value_stack: raiser.value_stack + values,
                                        effect_handlers: chain,
                                        ..raiser
                                    },
                                );
                            },
                            None => {},
                        },
                        _ => {},
                    }
                },
            }
        }
    }

    /// Aborting an effect keeps the machine closed.
    proof fn lemma_closed_abort_effect(self, h: usize, value: usize)
        requires
            self.closed(),
            self.context.call_stack.len() > 0,
            h < self.heap.cells.len(),
            value < self.heap.cells.len(),
        ensures
            self.abort_effect(h, value).closed(),
    {
        let n = self.heap.cells.len();
        lemma_closed_deref(self.heap, h);
        match self.heap.lookup(h) {
            Some(ValueView::Handler(record)) => match record.resume_point {
                Some(raiser) => {
                    let used = ValueView::Handler(
                        crate::value::HandlerView { resume_point: None, ..record },
                    );
                    self.lemma_closed_stored(h, used);
                    lemma_aborted_bounded(raiser, record.install_depth, value, n);
                    self.with_heap(self.heap.store(h, used)).lemma_closed_context(
                        crate::effect::aborted(raiser, record.install_depth, value),
                    );
                },
                None => {
                    lemma_left_bounded(self.context, value, n);
                    self.lemma_closed_context(left(self.context, value));
                },
            },
            _ => {
                lemma_left_bounded(self.context, value, n);
                self.lemma_closed_context(left(self.context, value));
            },
        }
    }

    proof fn lemma_safe_create_object(self, count: usize)
        requires
            self.closed(),
        ensures
            safe(self.create_object(count)),
            forall|name: Seq<char>| safe(self.create_enum(name, count)),
    {
        let n = self.heap.cells.len();
        if self.stack().len() >= 2 * count {
            let handles = self.top_values(2 * count);
            lemma_subrange_bounded(
                self.stack(),
                self.stack().len() - 2 * count,
                self.stack().len() as int,
                n,
            );
            lemma_pairs_safe(self.heap, handles, count as nat);
            match crate::create::property_pairs(self.heap, handles, count as nat) {
                Ok(entries) => {
                    assert forall|k: int| 0 <= k < entries.len() implies (#[trigger] entries[k]).1
                        < n + 1 by {
                        assert(entries[k].1 < n);
                    }
                    self.lemma_closed_drop(2 * count);
                    self.drop(2 * count).lemma_closed_alloc_push(ValueView::Object(entries));
                    assert forall|name: Seq<char>| safe(self.create_enum(name, count)) by {
                        self.drop(2 * count).lemma_closed_alloc_push(
                            ValueView::Enum(crate::value::EnumView { name, variants: entries }),
                        );
                    }
                },
                Err(e) => {},
            }
        }
    }

    proof fn lemma_safe_create_class(self, name: Seq<char>, methods: usize, properties: usize)
        requires
            self.closed(),
        ensures
            safe(self.create_class(name, methods, properties)),
    {
        let n = self.heap.cells.len();
        if self.stack().len() >= 2 * methods + 2 * properties {
            let all = self.top_values(2 * methods + 2 * properties);
            lemma_subrange_bounded(
                self.stack(),
                self.stack().len() - (2 * methods + 2 * properties),
                self.stack().len() as int,
                n,
            );
            lemma_subrange_bounded(all, 0, 2 * methods, n);
            lemma_subrange_bounded(all, 2 * methods, 2 * methods + 2 * properties, n);
            lemma_pairs_safe(self.heap, all.subrange(0, 2 * methods), methods as nat);
            lemma_pairs_safe(
                self.heap,
                all.subrange(2 * methods, 2 * methods + 2 * properties),
                properties as nat,
            );
            match crate::create::property_pairs(
                self.heap,
                all.subrange(0, 2 * methods),
                methods as nat,
            ) {
                Ok(method_table) => match crate::create::property_pairs(
                    self.heap,
                    all.subrange(2 * methods, 2 * methods + 2 * properties),
                    properties as nat,
                ) {
                    Ok(property_table) => {
                        assert forall|k: int| 0 <= k < method_table.len() implies (
                        #[trigger] method_table[k]).1 < n + 1 by {
                            assert(method_table[k].1 < n);
                        }
                        assert forall|k: int| 0 <= k < property_table.len() implies (
                        #[trigger] property_table[k]).1 < n + 1 by {
                            assert(property_table[k].1 < n);
                        }
                        self.lemma_closed_drop(2 * methods + 2 * properties);
                        self.drop(2 * methods + 2 * properties).lemma_closed_alloc_push(
                            ValueView::Class(
                                crate::value::ClassView {
                                    name,
                                    parent: None,
                                    traits: Seq::empty(),
                                    methods: method_table,
                                    properties: property_table,
                                },
                            ),
                        );
                    },
                    Err(e) => {},
                },
                Err(e) => {},
            }
        }
    }

    proof fn lemma_safe_create_trait(self, name: Seq<char>, count: usize)
        requires
            self.closed(),
        ensures
            safe(self.create_trait(name, count)),
    {
        let n = self.heap.cells.len();
        if self.stack().len() >= count {
            let handles = self.top_values(count as int);
            lemma_subrange_bounded(
                self.stack(),
                self.stack().len() - count,
                self.stack().len() as int,
                n,
            );
            lemma_names_safe(self.heap, handles);
            match parameter_names(self.heap, handles) {
                Ok(names) => {
                    self.lemma_closed_drop(count as int);
                    self.drop(count as int).lemma_closed_alloc_push(
                        ValueView::Trait(
                            crate::value::TraitView {
                                name,
                                methods: crate::create::bare_signatures(names),
                            },
                        ),
                    );
                },
                Err(e) => {},
            }
        }
    }

    proof fn lemma_safe_create_closure(self, names: Seq<Seq<char>>)
        requires
            self.closed(),
        ensures
            safe(self.create_closure(names)),
    {
        let n = self.heap.cells.len();
        if self.stack().len() >= 1 {
            self.lemma_closed_top(0);
            match self.heap.deref(self.top(0)) {
                Ok(ValueView::Function(f)) => {
                    self.lemma_captured_bounded(names);
                    match self.captured(names) {
                        Ok(entries) => {
                            assert forall|k: int| 0 <= k < entries.len() implies (
                            #[trigger] entries[k]).1 < n + 1 by {
                                assert(entries[k].1 < n);
                            }
                            let dropped = self.drop(1);
                            self.lemma_closed_drop(1);
                            dropped.lemma_closed_allocated(ValueView::Object(entries));
                            let with_env = dropped.allocated(ValueView::Object(entries));
                            with_env.lemma_closed_alloc_push(
                                ValueView::Function(
                                    crate::value::FunctionView {
                                        environment: dropped.heap.next_index(),
                                        ..f
                                    },
                                ),
                            );
                        },
                        Err(e) => {},
                    }
                },
                _ => {},
            }
        }
    }
}

/// Whether the code pushes no reference: every constant in it is a value
/// of its own.
pub open spec fn reference_free(code: Seq<Instruction>) -> bool {
    forall|i: int|
        0 <= i < code.len() ==> !(#[trigger] code[i] matches Instruction::PushConstant {
            value: ConstantValue::Reference(_),
        })
}

/// Whether an instruction can run on a machine with `n` cells: a reference
/// that it pushes must name one of them.
pub open spec fn instruction_fits(instruction: Instruction, n: nat) -> bool {
    match instruction {
        Instruction::PushConstant { value } => constant_fits(value, n),
        _ => true,
    }
}

impl VmView {
    /// Ending the innermost frame keeps the machine closed.
    proof fn lemma_closed_finish(self, value: usize)
        requires
            self.closed(),
            self.context.call_stack.len() > 0,
            value < self.heap.cells.len(),
        ensures
            self.finish(value).closed(),
    {
        let n = self.heap.cells.len();
        let frame = self.context.call_stack.last();
        assert(frame_bounded(self.context.call_stack[self.context.call_stack.len() - 1], n));
        match frame.kind {
            FrameKind::Call => {
                lemma_left_bounded(self.context, value, n);
                self.lemma_closed_context(left(self.context, value));
            },
            FrameKind::Coroutine => {
                if self.coroutines.len() > 0 && self.resumers.len() > 0 {
                    self.lemma_closed_end_coroutine(
                        crate::value::CoroutineState::Completed,
                        Some(value),
                        value,
                    );
                } else {
                    lemma_left_bounded(self.context, value, n);
                    self.lemma_closed_context(left(self.context, value));
                }
            },
            FrameKind::Handler { record, position } => {
                self.lemma_closed_abort_effect(record, value);
            },
        }
    }

    proof fn lemma_safe_return_value(self)
        requires
            self.closed(),
        ensures
            safe(self.return_value()),
    {
        if self.stack().len() >= 1 {
            self.lemma_closed_top(0);
            self.lemma_closed_drop(1);
            if self.context.call_stack.len() > 0 {
                self.drop(1).lemma_closed_finish(self.top(0));
            }
        }
    }

    proof fn lemma_safe_halt(self)
        requires
            self.closed(),
        ensures
            safe(self.halt()),
    {
        self.lemma_closed_context(
            ContextView { call_stack: Seq::empty(), ..self.context },
        );
    }

    /// Every instruction keeps a closed machine closed, and none fails on
    /// a dereference, provided that a reference it pushes names a cell.
    pub proof fn lemma_dispatch_is_safe(self, code: Seq<Instruction>, instruction: Instruction)
        requires
            self.closed(),
            instruction_fits(instruction, self.heap.cells.len()),
        ensures
            safe(self.dispatch(code, instruction)),
    {
        reveal(VmView::dispatch);
        match instruction {
            Instruction::PushConstant { value } => {
                self.lemma_safe_push_constant(value);
            },
            Instruction::Pop => {
                self.lemma_safe_pop();
            },
            Instruction::Dup => {
                self.lemma_safe_dup();
            },
            Instruction::Swap => {
                self.lemma_safe_swap();
            },
            Instruction::PushVariable { name } => {
                self.lemma_safe_push_variable(name@);
            },
            Instruction::StoreVariable { name } => {
                self.lemma_safe_store_variable(name@);
            },
            Instruction::GetIndex { index } => {
                self.lemma_safe_get_index(index);
            },
            Instruction::SetIndex { index } => {
                self.lemma_safe_set_index(index);
            },
            Instruction::GetProperty { name } => {
                self.lemma_safe_get_property(name@);
            },
            Instruction::SetProperty { name } => {
                self.lemma_safe_set_property(name@);
            },
            Instruction::Call { argument_count } => {
                self.lemma_safe_call(argument_count, code.len());
            },
            Instruction::CreateFunction { name, parameter_count, body_size } => {
                self.lemma_safe_create_function(
                    crate::value::name_view(name),
                    parameter_count,
                    body_size,
                    code.len(),
                );
            },
            Instruction::CreateClosure { captured_variables } => {
                self.lemma_safe_create_closure(crate::value::names_view(captured_variables@));
            },
            Instruction::CreateArray { size } => {
                self.lemma_safe_create_array(size);
            },
            Instruction::CreateObject { property_count } => {
                self.lemma_safe_create_object(property_count);
            },
            Instruction::CreateClass { name, method_count, property_count } => {
                self.lemma_safe_create_class(name@, method_count, property_count);
            },
            Instruction::CreateTrait { name, method_count } => {
                self.lemma_safe_create_trait(name@, method_count);
            },
            Instruction::CreateEnum { name, variant_count } => {
                self.lemma_safe_create_object(variant_count);
            },
            Instruction::Jump { offset } => {
                self.lemma_safe_jump(offset, code.len());
            },
            Instruction::JumpIfFalse { offset } => {
                self.lemma_safe_jump_if_false(offset, code.len());
            },
            Instruction::LoopEnd { label } => {
                self.lemma_safe_loops(code, label);
            },
            Instruction::Break { label } => {
                self.lemma_safe_loops(code, label);
            },
            Instruction::Continue { label } => {
                self.lemma_safe_loops(code, label);
            },
            Instruction::MatchCase { fall_through } => {
                self.lemma_safe_match_case(code, fall_through);
            },
            Instruction::Return => {
                self.lemma_safe_return_value();
            },
            Instruction::CreateCoroutine => {
                self.lemma_safe_create_coroutine();
            },
            Instruction::ResumeCoroutine => {
                self.lemma_safe_resume_coroutine(code.len());
            },
            Instruction::YieldCoroutine { value_count } => {
                self.lemma_safe_yield_coroutine(value_count);
            },
            Instruction::RaiseEffect { name, argument_count } => {
                self.lemma_safe_raise_effect(name@, argument_count, code.len());
            },
            Instruction::HandleEffect { name } => {
                self.lemma_safe_handle_effect(name@);
            },
            Instruction::ResumeEffect { value_count } => {
                self.lemma_safe_resume_effect(value_count);
            },
            Instruction::Halt => {
                self.lemma_safe_halt();
            },
            _ => {},
        }
    }

    /// A step keeps a closed machine closed and does not fail on a
    /// dereference, provided that a reference pushed in this step names a
    /// cell.
    pub proof fn lemma_step_is_safe(self, code: Seq<Instruction>)
        requires
            self.closed(),
            self.context.instruction_pointer < code.len() ==> instruction_fits(
                code[self.context.instruction_pointer as int],
                self.heap.cells.len(),
            ),
        ensures
            safe(self.step(code)),
    {
        reveal(VmView::advance);
        reveal(VmView::step);
        let n = self.heap.cells.len();
        if self.stack().len() > self.max_stack_depth || self.context.call_stack.len()
            > self.max_call_depth {
        } else if self.at_body_end(code.len()) {
            self.lemma_closed_allocated(ValueView::Null);
            self.allocated(ValueView::Null).lemma_closed_finish(self.heap.next_index());
        } else if self.context.instruction_pointer >= code.len() {
        } else {
            self.with_ip((self.context.instruction_pointer + 1) as usize).lemma_dispatch_is_safe(
                code,
                code[self.context.instruction_pointer as int],
            );
        }
        let (after, result) = self.advance(code);
        assert(after.closed());
        match result {
            Err(e) => {
                if after.coroutines.len() > 0 {
                    after.lemma_closed_allocated(ValueView::Null);
                    after.allocated(ValueView::Null).lemma_closed_end_coroutine(
                        crate::value::CoroutineState::Failed,
                        None,
                        after.heap.next_index(),
                    );
                }
            },
            Ok(f) => {},
        }
    }
}

/// Where the forwarded handles of a stack of contexts are bounded, each
/// forwarded context is.
proof fn lemma_contexts_forwarded_bounded(contexts: Seq<ContextView>, table: Seq<usize>, m: nat)
    requires
        bounded(
            crate::context::forward_all(table, crate::machine::contexts_handles(contexts)),
            m,
        ),
    ensures
        forall|k: int|
            0 <= k < contexts.len() ==> context_bounded(
                (#[trigger] contexts[k]).forwarded(table),
                m,
            ),
    decreases contexts.len(),
{
    if contexts.len() > 0 {
        let front = contexts.drop_last();
        let last = contexts.last();
        let a = crate::machine::contexts_handles(front);
        let b = last.handles();
        crate::context::lemma_forward_all_concat(table, a, b);
        crate::closed::lemma_concat_bounded(
            crate::context::forward_all(table, a),
            crate::context::forward_all(table, b),
            m,
        );
        lemma_contexts_forwarded_bounded(front, table, m);
        last.lemma_forwarded_handles(table);
        crate::closed::lemma_context_bounded(last.forwarded(table), m);
        assert forall|k: int| 0 <= k < contexts.len() implies context_bounded(
            (#[trigger] contexts[k]).forwarded(table),
            m,
        ) by {
            if k < front.len() {
                assert(front[k] == contexts[k]);
            }
        }
    }
}

impl VmView {
    /// A compacting collection keeps a closed machine closed: every handle
    /// that the machine holds, in a context or in a cell, names a cell of
    /// the compacted heap.
    pub proof fn lemma_collection_is_safe(self)
        requires
            self.closed(),
            self.heap.wf(),
        ensures
            self.collected().closed(),
    {
        let n = self.heap.cells.len();
        let roots = self.roots();
        let table = self.heap.forwarding(roots);
        let after = self.heap.collect(roots);
        let m = after.cells.len();
        let seeds = self.heap.seeds(roots);
        // Every handle in a reachable cell names a live cell.
        assert forall|i: int|
            crate::reach::reachable(self.heap.cells, seeds, i) implies crate::gc::handles_live(
            self.heap.cells,
            (#[trigger] self.heap.cells[i]).unwrap(),
        ) by {
            crate::reach::lemma_reachable_live(self.heap.cells, seeds, i);
            let v = self.heap.cells[i].unwrap();
            crate::closed::lemma_value_bounded(v, n);
            assert forall|k: int| 0 <= k < v.handles().len() implies crate::reach::live(
                self.heap.cells,
                #[trigger] v.handles()[k] as int,
            ) by {
                assert(self.heap.cells[v.handles()[k] as int].is_some());
            }
        }
        // So every handle in a cell of the new heap names a cell of it.
        assert forall|j: int| 0 <= j < m implies (#[trigger] after.cells[j]).is_some()
            && value_bounded(after.cells[j].unwrap(), m) by {
            let v = after.cells[j].unwrap();
            assert forall|k: int| 0 <= k < v.handles().len() implies #[trigger] v.handles()[k]
                < m by {
                crate::gc::lemma_collect_keeps_handles_in_bounds(self.heap, roots, j, k);
            }
            crate::closed::lemma_value_bounded(v, m);
        }
        // Every handle that the machine holds is a seed and names a live
        // cell, so it is forwarded to a cell of the new heap.
        crate::closed::lemma_context_bounded(self.context, n);
        let mapped = crate::context::forward_all(table, roots);
        assert forall|k: int| 0 <= k < roots.len() implies #[trigger] mapped[k] < m by {
            assert(seeds[self.heap.roots.len() + k] == roots[k]);
            self.lemma_roots_bounded();
            assert(roots[k] < n);
            assert(self.heap.cells[roots[k] as int].is_some());
            crate::gc::lemma_forwarded_seed_in_bounds(self.heap, roots, roots[k]);
        }
        let g = seq![self.globals];
        let c = self.context.handles();
        let r = crate::machine::contexts_handles(self.resumers);
        let co = self.coroutines;
        crate::context::lemma_forward_all_concat(table, g, c);
        crate::context::lemma_forward_all_concat(table, g + c, r);
        crate::context::lemma_forward_all_concat(table, g + c + r, co);
        let fg = crate::context::forward_all(table, g);
        let fc = crate::context::forward_all(table, c);
        let fr = crate::context::forward_all(table, r);
        let fco = crate::context::forward_all(table, co);
        crate::closed::lemma_concat_bounded(fg + fc + fr, fco, m);
        crate::closed::lemma_concat_bounded(fg + fc, fr, m);
        crate::closed::lemma_concat_bounded(fg, fc, m);
        assert(fg[0] == crate::context::forward(table, self.globals));
        self.context.lemma_forwarded_handles(table);
        crate::closed::lemma_context_bounded(self.context.forwarded(table), m);
        lemma_contexts_forwarded_bounded(self.resumers, table, m);
    }

    /// Every handle that a closed machine holds outside the heap names a
    /// cell.
    proof fn lemma_roots_bounded(self)
        requires
            self.closed(),
        ensures
            bounded(self.roots(), self.heap.cells.len()),
    {
        let n = self.heap.cells.len();
        let g = seq![self.globals];
        let c = self.context.handles();
        let r = crate::machine::contexts_handles(self.resumers);
        crate::closed::lemma_context_bounded(self.context, n);
        lemma_contexts_bounded(self.resumers, n);
        assert(g[0] == self.globals);
        crate::closed::lemma_concat_bounded(g, c, n);
        crate::closed::lemma_concat_bounded(g + c, r, n);
        crate::closed::lemma_concat_bounded(g + c + r, self.coroutines, n);
    }
}

/// The handles of bounded contexts are bounded.
proof fn lemma_contexts_bounded(contexts: Seq<ContextView>, n: nat)
    requires
        forall|k: int| 0 <= k < contexts.len() ==> context_bounded(#[trigger] contexts[k], n),
    ensures
        bounded(crate::machine::contexts_handles(contexts), n),
    decreases contexts.len(),
{
    if contexts.len() > 0 {
        let front = contexts.drop_last();
        assert forall|k: int| 0 <= k < front.len() implies context_bounded(
            #[trigger] front[k],
            n,
        ) by {
            assert(front[k] == contexts[k]);
        }
        lemma_contexts_bounded(front, n);
        assert(context_bounded(contexts[contexts.len() - 1], n));
        crate::closed::lemma_context_bounded(contexts.last(), n);
        crate::closed::lemma_concat_bounded(
            crate::machine::contexts_handles(front),
            contexts.last().handles(),
            n,
        );
    }
}

impl VmView {
    /// A new machine is closed.
    pub proof fn lemma_fresh_is_closed()
        ensures
            VmView::fresh().closed(),
            VmView::fresh().wf(),
    {
        let vm = VmView::fresh();
        assert(vm.heap.cells[0] == Some(ValueView::Object(Seq::empty())));
    }

    /// A closed machine whose frames, chains and waiting fibers are
    /// dropped is closed.
    pub proof fn lemma_abandoned_is_closed(self)
        requires
            self.closed(),
        ensures
            self.abandoned().closed(),
    {
    }
}

impl VmView {
    /// Handle safety of a run: a closed machine that runs code without
    /// references, with the collector switched off, stays closed however
    /// long it runs, and the run does not fail because a handle names a
    /// dead or a missing cell.
    pub proof fn lemma_run_is_safe(self, code: Seq<Instruction>, fuel: nat)
        requires
            self.closed(),
            reference_free(code),
        ensures
            self.run(code, fuel, 0).0.closed(),
            !(self.run(code, fuel, 0).1 matches Err(ErrorView::UseAfterFree(_))),
        decreases fuel,
    {
        if fuel > 0 {
            self.lemma_step_is_safe(code);
            let (after, result) = self.step(code);
            match result {
                Ok(FlowView::Halt) => {},
                Ok(FlowView::Return(v)) => {},
                Ok(_) => {
                    after.lemma_run_is_safe(code, (fuel - 1) as nat);
                },
                Err(e) => {},
            }
        }
    }
}

} // verus!
