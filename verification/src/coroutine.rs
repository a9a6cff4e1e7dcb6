//! Coroutines: one-shot, asymmetric. A resume saves the resumer's context
//! and makes the coroutine's context the live one; a yield, a return or a
//! failure of the coroutine puts the resumer's context back.

use crate::call::call_environment;
use crate::context::{ContextView, ExecutionContext, FrameKind, NyarFrame};
use crate::error::{ErrorView, VmError};
use crate::handle::Gc;
use crate::instruction::{ControlFlow, FlowView};
use crate::object::NyarObject;
use crate::value::{
    mismatch, type_name_of, Coroutine, CoroutineState, CoroutineView, Value, ValueType, ValueView,
};
use crate::vm::{contexts_view, flow_view, Outcome, VirtualMachine, VmView};
use vstd::prelude::*;

verus! {

/// The context of a fiber that has not run: at instruction 0, with empty
/// stacks and chains.
pub open spec fn empty_context() -> ContextView {
    ContextView {
        instruction_pointer: 0,
        value_stack: Seq::empty(),
        call_stack: Seq::empty(),
        environment_stack: Seq::empty(),
        effect_handlers: Seq::empty(),
    }
}

pub open spec fn resume_finished_text() -> Seq<char> {
    "Cannot resume completed or failed coroutine"@
}

pub open spec fn resume_running_text() -> Seq<char> {
    "Cannot resume a running coroutine"@
}

pub open spec fn yield_outside_text() -> Seq<char> {
    "Cannot yield outside of a coroutine"@
}

/// Whether a coroutine in state `from` may go to state `to`: the only legal
/// transitions are a resume of a new or suspended coroutine, and a yield, a
/// return or a failure of the running one.
pub open spec fn legal_transition(from: CoroutineState, to: CoroutineState) -> bool {
    match (from, to) {
        (CoroutineState::Initial, CoroutineState::Running) => true,
        (CoroutineState::Suspended, CoroutineState::Running) => true,
        (CoroutineState::Running, CoroutineState::Suspended) => true,
        (CoroutineState::Running, CoroutineState::Completed) => true,
        (CoroutineState::Running, CoroutineState::Failed) => true,
        _ => false,
    }
}

impl VmView {
    /// The machine after the running coroutine handed control back to its
    /// resumer: the resumer's context is live again.
    pub open spec fn handed_back(self) -> VmView {
        VmView {
            context: self.resumers.last(),
            resumers: self.resumers.drop_last(),
            coroutines: self.coroutines.drop_last(),
            ..self
        }
    }

    /// The machine after the live context was set aside for the coroutine
    /// `c`, whose context `context` becomes the live one.
    pub open spec fn handed_over(self, c: usize, context: ContextView) -> VmView {
        VmView {
            context,
            resumers: self.resumers.push(self.context),
            coroutines: self.coroutines.push(c),
            ..self
        }
    }

    /// `CreateCoroutine`: the function on top of the stack is replaced by a
    /// new coroutine that will run it.
    pub open spec fn create_coroutine(self) -> Outcome {
        if self.stack().len() < 1 {
            (self, Err(ErrorView::StackUnderflow))
        } else {
            match self.heap.deref(self.top(0)) {
                Err(e) => (self, Err(e)),
                Ok(ValueView::Function(_)) => (
                    self.drop(1).alloc_push(
                        ValueView::Coroutine(
                            CoroutineView {
                                state: CoroutineState::Initial,
                                function: self.top(0),
                                context: empty_context(),
                                result: None,
                            },
                        ),
                    ),
                    Ok(FlowView::Normal),
                ),
                Ok(v) => (self, Err(ErrorView::NotCallable(type_name_of(v.value_type())))),
            }
        }
    }

    /// The first resume of the coroutine `c`, whose record is `record`: the
    /// values under the coroutine are the arguments of its function.
    pub open spec fn start_coroutine(self, c: usize, record: CoroutineView, length: nat) -> Outcome {
        match self.heap.deref(record.function) {
            Err(e) => (self, Err(e)),
            Ok(ValueView::Function(f)) => if self.stack().len() <= f.parameters.len() {
                (self, Err(ErrorView::StackUnderflow))
            } else if f.body_start + f.body_size > length {
                (self, Err(ErrorView::InvalidJumpTarget))
            } else {
                let count = f.parameters.len();
                let arguments = self.stack().subrange(
                    self.stack().len() - 1 - count,
                    self.stack().len() - 1,
                );
                let resumer = self.drop(count as int + 1);
                let made = resumer.allocated(
                    ValueView::Object(call_environment(self.heap, f, arguments)),
                );
                let environment = resumer.heap.next_index();
                let running = made.with_heap(
                    made.heap.store(
                        c,
                        ValueView::Coroutine(
                            CoroutineView { state: CoroutineState::Running, ..record },
                        ),
                    ),
                );
                let frame = NyarFrame {
                    return_address: 0,
                    base_pointer: 0,
                    function: record.function,
                    body_start: f.body_start,
                    body_end: (f.body_start + f.body_size) as usize,
                    environment_depth: 0,
                    handler_depth: 0,
                    kind: FrameKind::Coroutine,
                };
                (
                    running.handed_over(
                        c,
                        ContextView {
                            instruction_pointer: f.body_start,
                            value_stack: Seq::empty(),
                            call_stack: seq![frame],
                            environment_stack: seq![environment],
                            effect_handlers: Seq::empty(),
                        },
                    ),
                    Ok(FlowView::Normal),
                )
            },
            Ok(v) => (self, Err(ErrorView::NotCallable(type_name_of(v.value_type())))),
        }
    }

    /// `ResumeCoroutine`: the coroutine on top of the stack runs until it
    /// yields, returns or fails. A new coroutine starts with the arguments
    /// under it; a suspended one goes on where it yielded. Any other
    /// coroutine cannot be resumed.
    pub open spec fn resume_coroutine(self, length: nat) -> Outcome {
        if self.stack().len() < 1 {
            (self, Err(ErrorView::StackUnderflow))
        } else {
            let c = self.top(0);
            match self.heap.deref(c) {
                Err(e) => (self, Err(e)),
                Ok(ValueView::Coroutine(record)) => match record.state {
                    CoroutineState::Completed | CoroutineState::Failed => (
                        self,
                        Err(ErrorView::CoroutineError(resume_finished_text())),
                    ),
                    CoroutineState::Running => (
                        self,
                        Err(ErrorView::CoroutineError(resume_running_text())),
                    ),
                    _ => if self.resumers.len() >= self.max_call_depth {
                        (self, Err(ErrorView::StackOverflow))
                    } else if record.state == CoroutineState::Initial {
                        self.start_coroutine(c, record, length)
                    } else {
                        (
                            self.drop(1).with_heap(
                                self.heap.store(
                                    c,
                                    ValueView::Coroutine(
                                        CoroutineView {
                                            state: CoroutineState::Running,
                                            context: empty_context(),
                                            ..record
                                        },
                                    ),
                                ),
                            ).handed_over(c, record.context),
                            Ok(FlowView::Normal),
                        )
                    },
                },
                Ok(v) => (self, Err(mismatch(ValueType::Coroutine, v.value_type()))),
            }
        }
    }

    /// `YieldCoroutine`: the running coroutine is suspended with the live
    /// context, less the yielded values, as its saved context; the resumer
    /// goes on with the yielded values on its stack.
    pub open spec fn yield_coroutine(self, count: usize) -> Outcome {
        if self.stack().len() < count {
            (self, Err(ErrorView::StackUnderflow))
        } else if self.coroutines.len() == 0 || self.resumers.len() == 0 {
            (self, Err(ErrorView::CoroutineError(yield_outside_text())))
        } else {
            let c = self.coroutines.last();
            match self.heap.lookup(c) {
                Some(ValueView::Coroutine(record)) => {
                    let values = self.stack().subrange(
                        self.stack().len() - count,
                        self.stack().len() as int,
                    );
                    let saved = self.drop(count as int).context;
                    let back = self.with_heap(
                        self.heap.store(
                            c,
                            ValueView::Coroutine(
                                CoroutineView {
                                    state: CoroutineState::Suspended,
                                    context: saved,
                                    ..record
                                },
                            ),
                        ),
                    ).handed_back();
                    (back.with_stack(back.stack() + values), Ok(FlowView::Yield(count)))
                },
                _ => (self, Err(ErrorView::InvalidHandle(c))),
            }
        }
    }

    /// The machine after the running coroutine ended in `state` with
    /// `result`: its record says so, and the resumer goes on with `value` on
    /// its stack.
    pub open spec fn end_coroutine(self, state: CoroutineState, result: Option<usize>, value: usize)
        -> VmView {
        let c = self.coroutines.last();
        let heap = match self.heap.lookup(c) {
            Some(ValueView::Coroutine(record)) => self.heap.store(
                c,
                ValueView::Coroutine(
                    CoroutineView { state, context: empty_context(), result, ..record },
                ),
            ),
            _ => self.heap,
        };
        self.with_heap(heap).handed_back().push(value)
    }
}

impl VirtualMachine {
    /// Sets the live context aside for the coroutine `c` and makes
    /// `context` the live one.
    pub(crate) fn hand_over(&mut self, c: usize, context: ExecutionContext)
        requires
            old(self).wf(),
        ensures
            final(self).wf(),
            final(self).same_frame(old(self)),
            final(self)@ == old(self)@.handed_over(c, context@),
    {
        let mut live = context;
        core::mem::swap(&mut self.context, &mut live);
        self.resumers.push(live);
        self.coroutines.push(c);
        assert(contexts_view(self.resumers@) =~= contexts_view(old(self).resumers@).push(
            old(self).context@,
        ));
    }

    /// Makes the context of the innermost resumer the live one again and
    /// returns the context that was live.
    pub(crate) fn hand_back(&mut self) -> (r: ExecutionContext)
        requires
            old(self).wf(),
            old(self)@.coroutines.len() > 0,
        ensures
            final(self).wf(),
            final(self).same_frame(old(self)),
            final(self)@ == old(self)@.handed_back(),
            r@ == old(self)@.context,
    {
        let mut live = match self.resumers.pop() {
            Some(c) => c,
            None => ExecutionContext::new(),
        };
        core::mem::swap(&mut self.context, &mut live);
        self.coroutines.pop();
        assert(contexts_view(self.resumers@) =~= contexts_view(old(self).resumers@).drop_last());
        live
    }

    /// `CreateCoroutine`.
    pub fn create_coroutine(&mut self) -> (r: Result<ControlFlow, VmError>)
        requires
            old(self).wf(),
        ensures
            final(self).wf(),
            final(self).same_frame(old(self)),
            (final(self)@, flow_view(r)) == old(self)@.create_coroutine(),
    {
        let n = self.context.value_stack.len();
        if n < 1 {
            return Err(VmError::StackUnderflow);
        }
        let function = self.context.value_stack[n - 1];
        match self.deref(function) {
            Err(e) => {
                return Err(e);
            },
            Ok(Value::Function(_)) => {},
            Ok(v) => {
                return Err(VmError::NotCallable(v.name_of_type()));
            },
        }
        self.drop_values(1);
        let record = Coroutine {
            state: CoroutineState::Initial,
            function,
            context: ExecutionContext::new(),
            result: None,
        };
        let h = self.allocate_cell(Value::Coroutine(record));
        self.context.value_stack.push(h);
        Ok(ControlFlow::Normal)
    }

    /// The first resume of the coroutine `c`.
    fn start_coroutine(&mut self, c: usize, function: usize, length: usize) -> (r: Result<
        ControlFlow,
        VmError,
    >)
        requires
            old(self).wf(),
            old(self)@.stack().len() >= 1,
            match old(self)@.heap.lookup(c) {
                Some(ValueView::Coroutine(record)) => record.function == function,
                _ => false,
            },
        ensures
            final(self).wf(),
            final(self).same_frame(old(self)),
            (final(self)@, flow_view(r)) == old(self)@.start_coroutine(
                c,
                old(self)@.heap.lookup(c).unwrap()->Coroutine_0,
                length as nat,
            ),
    {
        let n = self.context.value_stack.len();
        let (environment, start, size, count) = match self.deref(function) {
            Err(e) => {
                return Err(e);
            },
            Ok(Value::Function(f)) => {
                let count = f.parameters.len();
                if n <= count {
                    return Err(VmError::StackUnderflow);
                }
                if f.body_size > length || f.body_start > length - f.body_size {
                    return Err(VmError::InvalidJumpTarget);
                }
                let mut arguments: Vec<usize> = Vec::new();
                let mut i: usize = n - 1 - count;
                while i < n - 1
                    invariant
                        n == self.context.value_stack@.len(),
                        count < n,
                        n - 1 - count <= i <= n - 1,
                        arguments@ == self.context.value_stack@.subrange(
                            n - 1 - count,
                            i as int,
                        ),
                    decreases n - i,
                {
                    arguments.push(self.context.value_stack[i]);
                    assert(self.context.value_stack@.subrange(n - 1 - count, i + 1)
                        == self.context.value_stack@.subrange(n - 1 - count, i as int).push(
                        self.context.value_stack@[i as int],
                    ));
                    i = i + 1;
                }
                let mut environment = NyarObject::bind(&f.parameters, &arguments);
                let closure = self.copy_object(f.environment);
                environment.absorb(&closure);
                (environment, f.body_start, f.body_size, count)
            },
            Ok(v) => {
                return Err(VmError::NotCallable(v.name_of_type()));
            },
        };
        self.drop_values(count + 1);
        let e = self.allocate_cell(Value::Object(environment));
        proof {
            crate::heap::lemma_allocate_deref(old(self)@.drop(count + 1).heap, ValueView::Object(environment@), c);
        }
        match self.heap.view_mut(Gc::<Value>::new(c)) {
            Ok(Value::Coroutine(record)) => {
                record.state = CoroutineState::Running;
            },
            _ => {
                proof {
                    assert(false);
                }
            },
        }
        let frame = NyarFrame {
            return_address: 0,
            base_pointer: 0,
            function,
            body_start: start,
            body_end: start + size,
            environment_depth: 0,
            handler_depth: 0,
            kind: FrameKind::Coroutine,
        };
        let mut context = ExecutionContext::new();
        context.instruction_pointer = start;
        context.call_stack.push(frame);
        context.environment_stack.push(e);
        assert(context@.call_stack =~= seq![frame]);
        assert(context@.environment_stack =~= seq![e]);
        self.hand_over(c, context);
        Ok(ControlFlow::Normal)
    }

    /// `ResumeCoroutine`.
    pub fn resume_coroutine(&mut self, length: usize) -> (r: Result<ControlFlow, VmError>)
        requires
            old(self).wf(),
        ensures
            final(self).wf(),
            final(self).same_frame(old(self)),
            (final(self)@, flow_view(r)) == old(self)@.resume_coroutine(length as nat),
    {
        let n = self.context.value_stack.len();
        if n < 1 {
            return Err(VmError::StackUnderflow);
        }
        let c = self.context.value_stack[n - 1];
        let (state, function) = match self.deref(c) {
            Err(e) => {
                return Err(e);
            },
            Ok(Value::Coroutine(record)) => (record.state, record.function),
            Ok(v) => {
                return Err(v.type_mismatch(ValueType::Coroutine));
            },
        };
        match state {
            CoroutineState::Completed | CoroutineState::Failed => {
                return Err(
                    VmError::CoroutineError(
                        "Cannot resume completed or failed coroutine".to_owned(),
                    ),
                );
            },
            CoroutineState::Running => {
                return Err(VmError::CoroutineError("Cannot resume a running coroutine".to_owned()));
            },
            _ => {},
        }
        if self.resumers.len() >= self.max_call_depth {
            return Err(VmError::StackOverflow);
        }
        match state {
            CoroutineState::Initial => {
                return self.start_coroutine(c, function, length);
            },
            _ => {},
        }
        self.drop_values(1);
        let mut saved = ExecutionContext::new();
        match self.heap.view_mut(Gc::<Value>::new(c)) {
            Ok(Value::Coroutine(record)) => {
                record.state = CoroutineState::Running;
                core::mem::swap(&mut record.context, &mut saved);
            },
            _ => {
                proof {
                    assert(false);
                }
            },
        }
        self.hand_over(c, saved);
        Ok(ControlFlow::Normal)
    }

    /// `YieldCoroutine`.
    pub fn yield_coroutine(&mut self, count: usize) -> (r: Result<ControlFlow, VmError>)
        requires
            old(self).wf(),
        ensures
            final(self).wf(),
            final(self).same_frame(old(self)),
            (final(self)@, flow_view(r)) == old(self)@.yield_coroutine(count),
    {
        let n = self.context.value_stack.len();
        if n < count {
            return Err(VmError::StackUnderflow);
        }
        let running = self.coroutines.len();
        if running == 0 {
            return Err(VmError::CoroutineError("Cannot yield outside of a coroutine".to_owned()));
        }
        let c = self.coroutines[running - 1];
        match self.heap.get_value(c) {
            Some(Value::Coroutine(_)) => {},
            _ => {
                return Err(VmError::InvalidHandle(c));
            },
        }
        let values = self.top_values(count);
        self.drop_values(count);
        let saved = self.hand_back();
        match self.heap.view_mut(Gc::<Value>::new(c)) {
            Ok(Value::Coroutine(record)) => {
                record.state = CoroutineState::Suspended;
                record.context = saved;
            },
            _ => {
                proof {
                    assert(false);
                }
            },
        }
        crate::context::append_handles(&mut self.context.value_stack, &values);
        Ok(ControlFlow::Yield(count))
    }

    /// Ends the running coroutine in `state` with `result` and lets the
    /// resumer go on with `value` on its stack.
    pub(crate) fn end_coroutine(&mut self, state: CoroutineState, result: Option<usize>, value: usize)
        requires
            old(self).wf(),
            old(self)@.coroutines.len() > 0,
        ensures
            final(self).wf(),
            final(self).same_frame(old(self)),
            final(self)@ == old(self)@.end_coroutine(state, result, value),
    {
        let running = self.coroutines.len();
        let c = self.coroutines[running - 1];
        let is_record = match self.heap.get_value(c) {
            Some(Value::Coroutine(_)) => true,
            _ => false,
        };
        if is_record {
            match self.heap.view_mut(Gc::<Value>::new(c)) {
                Ok(Value::Coroutine(record)) => {
                    record.state = state;
                    record.result = result;
                    record.context = ExecutionContext::new();
                },
                _ => {
                    proof {
                        assert(false);
                    }
                },
            }
        }
        let _ = self.hand_back();
        self.context.value_stack.push(value);
    }
}

} // verus!
