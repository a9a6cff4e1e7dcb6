//! Effect handlers: installing one, raising an effect to the innermost
//! handler of its name, resuming the raiser from the handler, and what
//! happens where the handler returns without resuming.

use crate::call::{left, truncated};
use crate::context::{ContextView, ExecutionContext, FrameKind, NyarFrame};
use crate::error::{ErrorView, VmError};
use crate::handle::Gc;
use crate::heap::HeapView;
use crate::instruction::{ControlFlow, FlowView};
use crate::value::{type_name_of, EffectHandler, HandlerView, Value, ValueView};
use crate::vm::{flow_view, Outcome, VirtualMachine, VmView};
use vstd::prelude::*;

verus! {

pub open spec fn resume_twice_text() -> Seq<char> {
    "cannot resume twice"@
}

/// Whether `h` names a live handler record for the effect `name`.
pub open spec fn handles_effect(heap: HeapView, h: usize, name: Seq<char>) -> bool {
    match heap.lookup(h) {
        Some(ValueView::Handler(record)) => record.name == name,
        _ => false,
    }
}

/// The place on the chain of the innermost handler for the effect `name`.
pub open spec fn handler_position(heap: HeapView, chain: Seq<usize>, name: Seq<char>) -> Option<
    int,
>
    decreases chain.len(),
{
    if chain.len() == 0 {
        None
    } else if handles_effect(heap, chain.last(), name) {
        Some(chain.len() - 1)
    } else {
        handler_position(heap, chain.drop_last(), name)
    }
}

/// The handler that `handler_position` finds handles the effect, and no
/// handler inside it does.
pub proof fn lemma_handler_position(heap: HeapView, chain: Seq<usize>, name: Seq<char>)
    ensures
        match handler_position(heap, chain, name) {
            Some(p) => 0 <= p < chain.len() && handles_effect(heap, chain[p], name) && forall|k: int|
                p < k < chain.len() ==> !handles_effect(heap, chain[k], name),
            None => forall|k: int| 0 <= k < chain.len() ==> !handles_effect(heap, chain[k], name),
        },
    decreases chain.len(),
{
    if chain.len() > 0 && !handles_effect(heap, chain.last(), name) {
        let front = chain.drop_last();
        lemma_handler_position(heap, front, name);
        match handler_position(heap, front, name) {
            Some(p) => {
                assert forall|k: int| p < k < chain.len() implies !handles_effect(
                    heap,
                    chain[k],
                    name,
                ) by {
                    if k < front.len() {
                        assert(front[k] == chain[k]);
                    }
                }
            },
            None => {
                assert forall|k: int| 0 <= k < chain.len() implies !handles_effect(
                    heap,
                    chain[k],
                    name,
                ) by {
                    if k < front.len() {
                        assert(front[k] == chain[k]);
                    }
                }
            },
        }
    }
}

/// The place on the call stack of the innermost frame that runs a handler.
pub open spec fn handler_frame(frames: Seq<NyarFrame>) -> Option<int>
    decreases frames.len(),
{
    if frames.len() == 0 {
        None
    } else {
        match frames.last().kind {
            FrameKind::Handler { record, position } => Some(frames.len() - 1),
            _ => handler_frame(frames.drop_last()),
        }
    }
}

/// The context in which execution goes on after a handler returned `value`
/// without resuming: the continuation `raiser` of the raise, unwound to the
/// frame that installed the handler, which had `depth` frames under it.
pub open spec fn aborted(raiser: ContextView, depth: usize, value: usize) -> ContextView {
    if depth >= raiser.call_stack.len() {
        ContextView { value_stack: raiser.value_stack.push(value), ..raiser }
    } else {
        let frame = raiser.call_stack[depth as int];
        ContextView {
            instruction_pointer: frame.return_address,
            value_stack: truncated(raiser.value_stack, frame.base_pointer).push(value),
            call_stack: raiser.call_stack.subrange(0, depth as int),
            environment_stack: truncated(raiser.environment_stack, frame.environment_depth),
            effect_handlers: truncated(raiser.effect_handlers, frame.handler_depth),
        }
    }
}

/// The chain without the handler at `position`.
pub open spec fn chain_without(chain: Seq<usize>, position: usize) -> Seq<usize> {
    if position < chain.len() {
        chain.remove(position as int)
    } else {
        chain
    }
}

impl VmView {
    /// `HandleEffect`: the function on top of the stack becomes the
    /// innermost handler for the effect.
    pub open spec fn handle_effect(self, name: Seq<char>) -> Outcome {
        if self.stack().len() < 1 {
            (self, Err(ErrorView::StackUnderflow))
        } else {
            match self.heap.deref(self.top(0)) {
                Err(e) => (self, Err(e)),
                Ok(ValueView::Function(_)) => {
                    let made = self.drop(1).allocated(
                        ValueView::Handler(
                            HandlerView {
                                name,
                                handler: self.top(0),
                                install_depth: self.context.call_stack.len() as usize,
                                resume_point: None,
                            },
                        ),
                    );
                    (
                        made.with_context(
                            ContextView {
                                effect_handlers: made.context.effect_handlers.push(
                                    self.heap.next_index(),
                                ),
                                ..made.context
                            },
                        ),
                        Ok(FlowView::Normal),
                    )
                },
                Ok(v) => (self, Err(ErrorView::NotCallable(type_name_of(v.value_type())))),
            }
        }
    }

    /// `RaiseEffect`: the innermost handler for the effect is called with
    /// the arguments. Its record keeps the continuation of the raise, and
    /// while its body runs only the handlers outside it are on the chain.
    pub open spec fn raise_effect(self, name: Seq<char>, count: usize, length: nat) -> Outcome {
        if self.stack().len() < count {
            (self, Err(ErrorView::StackUnderflow))
        } else {
            match handler_position(self.heap, self.context.effect_handlers, name) {
                None => (self, Err(ErrorView::UnhandledEffect(name))),
                Some(p) => {
                    let h = self.context.effect_handlers[p];
                    let record = self.heap.lookup(h).unwrap()->Handler_0;
                    match self.call_error(record.handler, count, length) {
                        Some(e) => (self, Err(e)),
                        None => {
                            let inside = self.enter(
                                record.handler,
                                count,
                                0,
                                FrameKind::Handler { record: h, position: p as usize },
                            );
                            (
                                VmView {
                                    heap: inside.heap.store(
                                        h,
                                        ValueView::Handler(
                                            HandlerView {
                                                resume_point: Some(self.drop(count as int).context),
                                                ..record
                                            },
                                        ),
                                    ),
                                    context: ContextView {
                                        effect_handlers: self.context.effect_handlers.subrange(
                                            0,
                                            p,
                                        ),
                                        ..inside.context
                                    },
                                    ..inside
                                },
                                Ok(FlowView::Raise(name, count)),
                            )
                        },
                    }
                },
            }
        }
    }

    /// `ResumeEffect`: the raiser of the effect whose handler runs goes on
    /// with the `count` topmost values on its stack; the handler's frames
    /// are discarded and the handler leaves the chain. Fails where no
    /// handler runs, or where its continuation was used already.
    pub open spec fn resume_effect(self, count: usize) -> Outcome {
        if self.stack().len() < count {
            (self, Err(ErrorView::StackUnderflow))
        } else {
            match handler_frame(self.context.call_stack) {
                None => (self, Err(ErrorView::CoroutineError(resume_twice_text()))),
                Some(i) => {
                    let h = self.context.call_stack[i].kind->Handler_record;
                    let position = self.context.call_stack[i].kind->Handler_position;
                    match self.heap.lookup(h) {
                        Some(ValueView::Handler(record)) => match record.resume_point {
                            Some(raiser) => (
                                VmView {
                                    heap: self.heap.store(
                                        h,
                                        ValueView::Handler(
                                            HandlerView { resume_point: None, ..record },
                                        ),
                                    ),
                                    context: ContextView {
                                        value_stack: raiser.value_stack + self.stack().subrange(
                                            self.stack().len() - count,
                                            self.stack().len() as int,
                                        ),
                                        effect_handlers: chain_without(
                                            raiser.effect_handlers,
                                            position,
                                        ),
                                        ..raiser
                                    },
                                    ..self
                                },
                                Ok(FlowView::Normal),
                            ),
                            None => (self, Err(ErrorView::CoroutineError(resume_twice_text()))),
                        },
                        _ => (self, Err(ErrorView::CoroutineError(resume_twice_text()))),
                    }
                },
            }
        }
    }

    /// The machine after the innermost frame, which runs the handler with
    /// record `h`, returned `value` without resuming: the effect is aborted,
    /// and control goes back to the frame that installed the handler.
    pub open spec fn abort_effect(self, h: usize, value: usize) -> VmView {
        match self.heap.lookup(h) {
            Some(ValueView::Handler(record)) => match record.resume_point {
                Some(raiser) => VmView {
                    heap: self.heap.store(
                        h,
                        ValueView::Handler(HandlerView { resume_point: None, ..record }),
                    ),
                    context: aborted(raiser, record.install_depth, value),
                    ..self
                },
                None => self.with_context(left(self.context, value)),
            },
            _ => self.with_context(left(self.context, value)),
        }
    }
}

impl VirtualMachine {
    /// `HandleEffect`.
    pub fn handle_effect(&mut self, name: &String) -> (r: Result<ControlFlow, VmError>)
        requires
            old(self).wf(),
        ensures
            final(self).wf(),
            final(self).same_frame(old(self)),
            (final(self)@, flow_view(r)) == old(self)@.handle_effect(name@),
    {
        let n = self.context.value_stack.len();
        if n < 1 {
            return Err(VmError::StackUnderflow);
        }
        let function = self.context.value_stack[n - 1];
        match self.deref(function) {
            Err(e) => {
                return Err(e);
            },
            Ok(Value::Function(_)) => {},
            Ok(v) => {
                return Err(VmError::NotCallable(v.name_of_type()));
            },
        }
        self.drop_values(1);
        let record = EffectHandler {
            name: name.clone(),
            handler: function,
            install_depth: self.context.call_stack.len(),
            resume_point: None,
        };
        let h = self.allocate_cell(Value::Handler(record));
        self.context.effect_handlers.push(h);
        Ok(ControlFlow::Normal)
    }

    /// The innermost handler on the chain for the effect `name`: its place
    /// and its handle.
    pub fn find_effect_handler(&self, name: &String) -> (r: Option<(usize, usize)>)
        ensures
            match r {
                Some((p, h)) => handler_position(
                    self@.heap,
                    self@.context.effect_handlers,
                    name@,
                ) == Some(p as int) && p < self@.context.effect_handlers.len()
                    && h == self@.context.effect_handlers[p as int],
                None => handler_position(self@.heap, self@.context.effect_handlers, name@).is_none(),
            },
    {
        let ghost chain = self@.context.effect_handlers;
        let mut i: usize = self.context.effect_handlers.len();
        assert(chain.subrange(0, i as int) == chain);
        while i > 0
            invariant
                chain == self@.context.effect_handlers,
                i <= chain.len(),
                handler_position(self@.heap, chain, name@) == handler_position(
                    self@.heap,
                    chain.subrange(0, i as int),
                    name@,
                ),
            decreases i,
        {
            let h = self.context.effect_handlers[i - 1];
            proof {
                let prefix = chain.subrange(0, i as int);
                assert(prefix.last() == h);
                assert(prefix.drop_last() == chain.subrange(0, i - 1));
            }
            let matches = match self.heap.get_value(h) {
                Some(Value::Handler(record)) => record.name == *name,
                _ => false,
            };
            if matches {
                return Some((i - 1, h));
            }
            i = i - 1;
        }
        None
    }

    /// `RaiseEffect`.
    pub fn raise_effect(&mut self, name: &String, count: usize, length: usize) -> (r: Result<
        ControlFlow,
        VmError,
    >)
        requires
            old(self).wf(),
        ensures
            final(self).wf(),
            final(self).same_frame(old(self)),
            (final(self)@, flow_view(r)) == old(self)@.raise_effect(name@, count, length as nat),
    {
        let n = self.context.value_stack.len();
        if n < count {
            return Err(VmError::StackUnderflow);
        }
        let (position, h) = match self.find_effect_handler(name) {
            Some(found) => found,
            None => {
                return Err(VmError::UnhandledEffect(name.clone()));
            },
        };
        proof {
            lemma_handler_position(self@.heap, self@.context.effect_handlers, name@);
        }
        let function = match self.heap.get_value(h) {
            Some(Value::Handler(record)) => record.handler,
            _ => {
                proof {
                    assert(false);
                }
                0
            },
        };
        match self.check_call(function, count, length) {
            Err(e) => {
                return Err(e);
            },
            Ok(_) => {},
        }
        let mut raiser = self.context.duplicate();
        raiser.value_stack.truncate(n - count);
        assert(raiser@ == self@.drop(count as int).context);
        let ghost before = self@;
        self.enter(function, count, 0, FrameKind::Handler { record: h, position }, length);
        proof {
            let dropped = before.drop(count as int);
            let f = before.heap.lookup(function).unwrap()->Function_0;
            let arguments = before.stack().subrange(
                before.stack().len() - count,
                before.stack().len() as int,
            );
            crate::heap::lemma_allocate_deref(
                dropped.heap,
                ValueView::Object(crate::call::call_environment(before.heap, f, arguments)),
                h,
            );
        }
        match self.heap.view_mut(Gc::<Value>::new(h)) {
            Ok(Value::Handler(record)) => {
                record.resume_point = Some(raiser);
            },
            _ => {
                proof {
                    assert(false);
                }
            },
        }
        self.context.effect_handlers.truncate(position);
        Ok(ControlFlow::Raise(name.clone(), count))
    }

    /// The innermost frame that runs a handler: the handler's record and its
    /// place on the chain of the raiser.
    pub(crate) fn find_handler_frame(&self) -> (r: Option<(usize, usize)>)
        ensures
            match r {
                Some((h, position)) => match handler_frame(self@.context.call_stack) {
                    Some(i) => self@.context.call_stack[i].kind == (FrameKind::Handler {
                        record: h,
                        position,
                    }),
                    None => false,
                },
                None => handler_frame(self@.context.call_stack).is_none(),
            },
    {
        let ghost frames = self@.context.call_stack;
        let mut i: usize = self.context.call_stack.len();
        assert(frames.subrange(0, i as int) == frames);
        while i > 0
            invariant
                frames == self@.context.call_stack,
                i <= frames.len(),
                handler_frame(frames) == handler_frame(frames.subrange(0, i as int)),
            decreases i,
        {
            let frame = self.context.call_stack[i - 1];
            proof {
                let prefix = frames.subrange(0, i as int);
                assert(prefix.last() == frame);
                assert(prefix.drop_last() == frames.subrange(0, i - 1));
            }
            match frame.kind {
                FrameKind::Handler { record, position } => {
                    return Some((record, position));
                },
                _ => {},
            }
            i = i - 1;
        }
        None
    }

    /// `ResumeEffect`.
    pub fn resume_effect(&mut self, count: usize) -> (r: Result<ControlFlow, VmError>)
        ensures
            old(self).wf() ==> final(self).wf(),
            final(self).same_frame(old(self)),
            (final(self)@, flow_view(r)) == old(self)@.resume_effect(count),
    {
        let n = self.context.value_stack.len();
        if n < count {
            return Err(VmError::StackUnderflow);
        }
        let (h, position) = match self.find_handler_frame() {
            Some(found) => found,
            None => {
                return Err(VmError::CoroutineError("cannot resume twice".to_owned()));
            },
        };
        let pending = match self.heap.get_value(h) {
            Some(Value::Handler(record)) => record.resume_point.is_some(),
            _ => false,
        };
        if !pending {
            return Err(VmError::CoroutineError("cannot resume twice".to_owned()));
        }
        let values = self.top_values(count);
        let mut point: Option<ExecutionContext> = None;
        match self.heap.view_mut(Gc::<Value>::new(h)) {
            Ok(Value::Handler(record)) => {
                core::mem::swap(&mut record.resume_point, &mut point);
            },
            _ => {
                proof {
                    assert(false);
                }
            },
        }
        let mut raiser = match point {
            Some(c) => c,
            None => {
                proof {
                    assert(false);
                }
                ExecutionContext::new()
            },
        };
        crate::context::append_handles(&mut raiser.value_stack, &values);
        if position < raiser.effect_handlers.len() {
            raiser.effect_handlers.remove(position);
        }
        self.context = raiser;
        Ok(ControlFlow::Normal)
    }

    /// Ends the handler frame on top of the call stack, whose handler
    /// returned `value` without resuming.
    pub(crate) fn abort_effect(&mut self, h: usize, value: usize)
        requires
            old(self)@.context.call_stack.len() > 0,
        ensures
            old(self).wf() ==> final(self).wf(),
            final(self).same_frame(old(self)),
            final(self)@ == old(self)@.abort_effect(h, value),
    {
        let pending = match self.heap.get_value(h) {
            Some(Value::Handler(record)) => record.resume_point.is_some(),
            _ => false,
        };
        if !pending {
            self.return_to_caller(value);
            return ;
        }
        let mut point: Option<ExecutionContext> = None;
        let mut depth: usize = 0;
        match self.heap.view_mut(Gc::<Value>::new(h)) {
            Ok(Value::Handler(record)) => {
                core::mem::swap(&mut record.resume_point, &mut point);
                depth = record.install_depth;
            },
            _ => {
                proof {
                    assert(false);
                }
            },
        }
        let mut raiser = match point {
            Some(c) => c,
            None => {
                proof {
                    assert(false);
                }
                ExecutionContext::new()
            },
        };
        if depth < raiser.call_stack.len() {
            let frame = raiser.call_stack[depth];
            raiser.instruction_pointer = frame.return_address;
            raiser.value_stack.truncate(frame.base_pointer);
            raiser.call_stack.truncate(depth);
            raiser.environment_stack.truncate(frame.environment_depth);
            raiser.effect_handlers.truncate(frame.handler_depth);
        }
        raiser.value_stack.push(value);
        self.context = raiser;
    }
}

/// The frame that `handler_frame` finds is one of the frames.
pub proof fn lemma_handler_frame_bound(frames: Seq<NyarFrame>)
    ensures
        match handler_frame(frames) {
            Some(i) => 0 <= i < frames.len() && (frames[i].kind is Handler),
            None => true,
        },
    decreases frames.len(),
{
    if frames.len() > 0 {
        match frames.last().kind {
            FrameKind::Handler { record, position } => {},
            _ => {
                lemma_handler_frame_bound(frames.drop_last());
            },
        }
    }
}

} // verus!
