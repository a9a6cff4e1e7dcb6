//! Functions: making one of the instructions that follow, calling it, and
//! returning to the caller.

use crate::context::{ContextView, FrameKind, NyarFrame};
use crate::error::{ErrorView, VmError};
use crate::heap::HeapView;
use crate::instruction::{ControlFlow, FlowView};
use crate::object::{entries_bound, entries_merged, NyarObject};
use crate::value::{
    mismatch, name_view, names_view, type_name_of, Function, FunctionView, Value, ValueType,
    ValueView,
};
use crate::vm::{flow_view, Outcome, VirtualMachine, VmView};
use vstd::prelude::*;

verus! {

/// The entries of the object that `h` names; none where it names no live
/// object.
pub open spec fn object_entries(heap: HeapView, h: usize) -> Seq<(Seq<char>, usize)> {
    match heap.lookup(h) {
        Some(ValueView::Object(entries)) => entries,
        _ => Seq::empty(),
    }
}

/// The environment in which a function runs: its parameters bound to the
/// arguments, then the variables that it closed over. A variable that the
/// function closed over replaces a parameter of the same name.
pub open spec fn call_environment(heap: HeapView, f: FunctionView, arguments: Seq<usize>) -> Seq<
    (Seq<char>, usize),
> {
    entries_merged(entries_bound(f.parameters, arguments), object_entries(heap, f.environment))
}

/// The names that the handles stand for, where each names a string; else
/// the error of the first that does not.
pub open spec fn parameter_names(heap: HeapView, handles: Seq<usize>) -> Result<
    Seq<Seq<char>>,
    ErrorView,
>
    decreases handles.len(),
{
    if handles.len() == 0 {
        Ok(Seq::empty())
    } else {
        match parameter_names(heap, handles.drop_last()) {
            Err(e) => Err(e),
            Ok(names) => match heap.deref(handles.last()) {
                Err(e) => Err(e),
                Ok(ValueView::String(s)) => Ok(names.push(s)),
                Ok(v) => Err(mismatch(ValueType::String, v.value_type())),
            },
        }
    }
}

/// The frame for a call of the function `f` with handle `function`, made in
/// the context `c` after the callee and its arguments were dropped.
pub open spec fn call_frame(c: ContextView, function: usize, f: FunctionView, kind: FrameKind)
    -> NyarFrame {
    NyarFrame {
        return_address: c.instruction_pointer,
        base_pointer: c.value_stack.len() as usize,
        function,
        body_start: f.body_start,
        body_end: (f.body_start + f.body_size) as usize,
        environment_depth: c.environment_stack.len() as usize,
        handler_depth: c.effect_handlers.len() as usize,
        kind,
    }
}

/// The context after entering a frame whose environment is `environment`.
pub open spec fn entered(c: ContextView, frame: NyarFrame, environment: usize) -> ContextView {
    ContextView {
        instruction_pointer: frame.body_start,
        value_stack: c.value_stack,
        call_stack: c.call_stack.push(frame),
        environment_stack: c.environment_stack.push(environment),
        effect_handlers: c.effect_handlers,
    }
}

/// The first `n` items, or all of them where there are fewer.
pub open spec fn truncated<A>(s: Seq<A>, n: usize) -> Seq<A> {
    if n <= s.len() {
        s.subrange(0, n as int)
    } else {
        s
    }
}

/// The context after leaving the innermost frame with the value `value`:
/// the caller's stack, environment chain and handler chain are restored and
/// the value is pushed.
pub open spec fn left(c: ContextView, value: usize) -> ContextView {
    let frame = c.call_stack.last();
    ContextView {
        instruction_pointer: frame.return_address,
        value_stack: truncated(c.value_stack, frame.base_pointer).push(value),
        call_stack: c.call_stack.drop_last(),
        environment_stack: truncated(c.environment_stack, frame.environment_depth),
        effect_handlers: truncated(c.effect_handlers, frame.handler_depth),
    }
}

impl VmView {
    /// The machine with another live context.
    pub open spec fn with_context(self, context: ContextView) -> VmView {
        VmView { context, ..self }
    }

    /// What stands in the way of calling the value `callee` with `count`
    /// arguments, if anything does.
    pub open spec fn call_error(self, callee: usize, count: usize, length: nat) -> Option<
        ErrorView,
    > {
        match self.heap.deref(callee) {
            Err(e) => Some(e),
            Ok(ValueView::Function(f)) => if f.parameters.len() != count {
                Some(
                    ErrorView::ArgumentCountMismatch {
                        expected: f.parameters.len() as usize,
                        found: count,
                    },
                )
            } else if self.context.call_stack.len() >= self.max_call_depth {
                Some(ErrorView::StackOverflow)
            } else if f.body_start + f.body_size > length {
                Some(ErrorView::InvalidJumpTarget)
            } else {
                None
            },
            Ok(v) => Some(ErrorView::NotCallable(type_name_of(v.value_type()))),
        }
    }

    /// The machine after the function `callee` was entered with the
    /// `count` topmost values as arguments; `extra` more values are dropped
    /// with them.
    pub open spec fn enter(self, callee: usize, count: usize, extra: int, kind: FrameKind) -> VmView {
        let f = self.heap.lookup(callee).unwrap()->Function_0;
        let arguments = self.stack().subrange(self.stack().len() - count, self.stack().len() as int);
        let environment = call_environment(self.heap, f, arguments);
        let dropped = self.drop(count + extra);
        let frame = call_frame(dropped.context, callee, f, kind);
        let made = dropped.allocated(ValueView::Object(environment));
        made.with_context(entered(made.context, frame, dropped.heap.next_index()))
    }

    /// `Call`: the callee lies under its arguments.
    pub open spec fn call(self, count: usize, length: nat) -> Outcome {
        if self.stack().len() <= count {
            (self, Err(ErrorView::StackUnderflow))
        } else {
            let callee = self.top(count as int);
            match self.call_error(callee, count, length) {
                Some(e) => (self, Err(e)),
                None => (self.enter(callee, count, 1, FrameKind::Call), Ok(FlowView::Normal)),
            }
        }
    }

    /// `CreateFunction`: the `parameter_count` topmost values name the
    /// parameters, the next `body_size` instructions are the body and are
    /// skipped, the variables of the innermost scope are captured, and the
    /// function is pushed.
    pub open spec fn create_function(
        self,
        name: Option<Seq<char>>,
        parameter_count: usize,
        body_size: usize,
        length: nat,
    ) -> Outcome {
        let start = self.context.instruction_pointer;
        if start + body_size > length {
            (self, Err(ErrorView::InvalidJumpTarget))
        } else if self.stack().len() < parameter_count {
            (self, Err(ErrorView::StackUnderflow))
        } else {
            let handles = self.stack().subrange(
                self.stack().len() - parameter_count,
                self.stack().len() as int,
            );
            match parameter_names(self.heap, handles) {
                Err(e) => (self, Err(e)),
                Ok(parameters) => {
                    let captured = if self.context.environment_stack.len() > 0 {
                        object_entries(self.heap, self.context.environment_stack.last())
                    } else {
                        Seq::empty()
                    };
                    let dropped = self.drop(parameter_count as int);
                    let with_env = dropped.allocated(ValueView::Object(captured));
                    let function = FunctionView {
                        name,
                        parameters,
                        body_start: start,
                        body_size,
                        environment: dropped.heap.next_index(),
                    };
                    (
                        with_env.alloc_push(ValueView::Function(function)).with_ip(
                            (start + body_size) as usize,
                        ),
                        Ok(FlowView::Normal),
                    )
                },
            }
        }
    }

    /// The machine after the innermost frame, made by a call, returned
    /// `value` to its caller.
    pub open spec fn return_to_caller(self, value: usize) -> VmView {
        self.with_context(left(self.context, value))
    }
}

impl VirtualMachine {
    /// A copy of the `count` topmost values of the stack, in stack order.
    pub(crate) fn top_values(&self, count: usize) -> (r: Vec<usize>)
        requires
            count <= self@.stack().len(),
        ensures
            r@ == self@.stack().subrange(self@.stack().len() - count, self@.stack().len() as int),
    {
        let n = self.context.value_stack.len();
        let mut items: Vec<usize> = Vec::new();
        let mut i: usize = n - count;
        while i < n
            invariant
                n == self.context.value_stack@.len(),
                count <= n,
                n - count <= i <= n,
                items@ == self.context.value_stack@.subrange(n - count, i as int),
            decreases n - i,
        {
            items.push(self.context.value_stack[i]);
            assert(self.context.value_stack@.subrange(n - count, i + 1)
                == self.context.value_stack@.subrange(n - count, i as int).push(
                self.context.value_stack@[i as int],
            ));
            i = i + 1;
        }
        items
    }

    /// A copy of the object that `h` names; an empty object where it names
    /// no live object.
    pub(crate) fn copy_object(&self, h: usize) -> (r: NyarObject)
        ensures
            r@ == object_entries(self@.heap, h),
    {
        match self.heap.get_value(h) {
            Some(Value::Object(object)) => object.duplicate(),
            _ => NyarObject::new(),
        }
    }

    /// Checks that `callee` can be called with `count` arguments, and gives
    /// the place of its body.
    pub(crate) fn check_call(&self, callee: usize, count: usize, length: usize) -> (r: Result<
        (usize, usize),
        VmError,
    >)
        ensures
            match r {
                Ok((start, end)) => self@.call_error(callee, count, length as nat)
                    == None::<ErrorView> && start == (
                self@.heap.lookup(callee).unwrap()->Function_0).body_start && end == start + (
                self@.heap.lookup(callee).unwrap()->Function_0).body_size,
                Err(e) => self@.call_error(callee, count, length as nat) == Some(e@),
            },
    {
        match self.deref(callee) {
            Err(e) => Err(e),
            Ok(Value::Function(f)) => {
                if f.parameters.len() != count {
                    Err(
                        VmError::ArgumentCountMismatch {
                            expected: f.parameters.len(),
                            found: count,
                        },
                    )
                } else if self.context.call_stack.len() >= self.max_call_depth {
                    Err(VmError::StackOverflow)
                } else if f.body_size > length || f.body_start > length - f.body_size {
                    Err(VmError::InvalidJumpTarget)
                } else {
                    Ok((f.body_start, f.body_start + f.body_size))
                }
            },
            Ok(v) => Err(VmError::NotCallable(v.name_of_type())),
        }
    }

    /// Enters the function `callee`, which `check_call` accepted, with the
    /// `count` topmost values as arguments, dropping `extra` more values
    /// with them.
    pub(crate) fn enter(
        &mut self,
        callee: usize,
        count: usize,
        extra: usize,
        kind: FrameKind,
        length: usize,
    )
        requires
            old(self).wf(),
            extra <= 1,
            count + extra <= old(self)@.stack().len(),
            old(self)@.call_error(callee, count, length as nat) == None::<ErrorView>,
        ensures
            final(self).wf(),
            final(self).same_frame(old(self)),
            final(self)@ == old(self)@.enter(callee, count, extra as int, kind),
    {
        let arguments = self.top_values(count);
        let depth = self.context.value_stack.len();
        let (environment, start, size) = match self.heap.get_value(callee) {
            Some(Value::Function(f)) => {
                let mut environment = NyarObject::bind(&f.parameters, &arguments);
                let closure = self.copy_object(f.environment);
                environment.absorb(&closure);
                (environment, f.body_start, f.body_size)
            },
            _ => {
                proof {
                    assert(false);
                }
                (NyarObject::new(), 0, 0)
            },
        };
        self.drop_values(count + extra);
        let frame = NyarFrame {
            return_address: self.context.instruction_pointer,
            base_pointer: self.context.value_stack.len(),
            function: callee,
            body_start: start,
            body_end: start + size,
            environment_depth: self.context.environment_stack.len(),
            handler_depth: self.context.effect_handlers.len(),
            kind,
        };
        let e = self.allocate_cell(Value::Object(environment));
        self.context.call_stack.push(frame);
        self.context.environment_stack.push(e);
        self.context.instruction_pointer = start;
    }

    /// `Call`.
    pub fn call(&mut self, count: usize, length: usize) -> (r: Result<ControlFlow, VmError>)
        requires
            old(self).wf(),
        ensures
            final(self).wf(),
            final(self).same_frame(old(self)),
            (final(self)@, flow_view(r)) == old(self)@.call(count, length as nat),
    {
        let n = self.context.value_stack.len();
        if n <= count {
            return Err(VmError::StackUnderflow);
        }
        let callee = self.context.value_stack[n - 1 - count];
        match self.check_call(callee, count, length) {
            Err(e) => Err(e),
            Ok(_) => {
                self.enter(callee, count, 1, FrameKind::Call, length);
                Ok(ControlFlow::Normal)
            },
        }
    }

    /// The names that the `count` topmost values stand for.
    pub(crate) fn read_names(&self, count: usize) -> (r: Result<Vec<String>, VmError>)
        requires
            count <= self@.stack().len(),
        ensures
            match r {
                Ok(names) => names@.len() == count && parameter_names(
                    self@.heap,
                    self@.stack().subrange(
                        self@.stack().len() - count,
                        self@.stack().len() as int,
                    ),
                ) == Ok::<Seq<Seq<char>>, ErrorView>(names_view(names@)),
                Err(e) => parameter_names(
                    self@.heap,
                    self@.stack().subrange(
                        self@.stack().len() - count,
                        self@.stack().len() as int,
                    ),
                ) == Err::<Seq<Seq<char>>, ErrorView>(e@),
            },
    {
        let handles = self.top_values(count);
        let mut names: Vec<String> = Vec::new();
        let mut i: usize = 0;
        assert(names_view(names@) =~= Seq::<Seq<char>>::empty());
        assert(handles@.subrange(0, 0).len() == 0);
        while i < count
            invariant
                count == handles@.len(),
                count <= self@.stack().len(),
                handles@ == self@.stack().subrange(
                    self@.stack().len() - count,
                    self@.stack().len() as int,
                ),
                i <= count,
                names@.len() == i,
                parameter_names(self@.heap, handles@.subrange(0, i as int)) == Ok::<
                    Seq<Seq<char>>,
                    ErrorView,
                >(names_view(names@)),
            decreases count - i,
        {
            proof {
                let next = handles@.subrange(0, i + 1);
                assert(next.drop_last() == handles@.subrange(0, i as int));
                assert(next.last() == handles@[i as int]);
            }
            let ghost before = names@;
            match self.deref(handles[i]) {
                Err(e) => {
                    proof {
                        assert(parameter_names(self@.heap, handles@.subrange(0, i + 1)) == Err::<
                            Seq<Seq<char>>,
                            ErrorView,
                        >(e@));
                        lemma_names_error(self@.heap, handles@, i as int);
                    }
                    return Err(e);
                },
                Ok(Value::String(s)) => {
                    names.push(s.clone());
                    assert(names_view(names@) =~= names_view(before).push(s@));
                },
                Ok(v) => {
                    proof {
                        assert(parameter_names(self@.heap, handles@.subrange(0, i + 1)).is_err());
                        lemma_names_error(self@.heap, handles@, i as int);
                    }
                    return Err(v.type_mismatch(ValueType::String));
                },
            }
            i = i + 1;
        }
        assert(handles@.subrange(0, count as int) == handles@);
        Ok(names)
    }

    /// `CreateFunction`.
    pub fn create_function(
        &mut self,
        name: &Option<String>,
        parameter_count: usize,
        body_size: usize,
        length: usize,
    ) -> (r: Result<ControlFlow, VmError>)
        requires
            old(self).wf(),
        ensures
            final(self).wf(),
            final(self).same_frame(old(self)),
            (final(self)@, flow_view(r)) == old(self)@.create_function(
                name_view(*name),
                parameter_count,
                body_size,
                length as nat,
            ),
    {
        let start = self.context.instruction_pointer;
        if body_size > length || start > length - body_size {
            return Err(VmError::InvalidJumpTarget);
        }
        if self.context.value_stack.len() < parameter_count {
            return Err(VmError::StackUnderflow);
        }
        let parameters = match self.read_names(parameter_count) {
            Ok(names) => names,
            Err(e) => {
                return Err(e);
            },
        };
        let depth = self.context.environment_stack.len();
        let captured = if depth > 0 {
            self.copy_object(self.context.environment_stack[depth - 1])
        } else {
            NyarObject::new()
        };
        let name = match name {
            Some(s) => Some(s.clone()),
            None => None,
        };
        self.drop_values(parameter_count);
        let environment = self.allocate_cell(Value::Object(captured));
        let function = Function { name, parameters, body_start: start, body_size, environment };
        let h = self.allocate_cell(Value::Function(function));
        self.context.value_stack.push(h);
        self.context.instruction_pointer = start + body_size;
        Ok(ControlFlow::Normal)
    }

    /// Leaves the innermost frame with `value` for the caller.
    pub(crate) fn return_to_caller(&mut self, value: usize)
        requires
            old(self)@.context.call_stack.len() > 0,
        ensures
            old(self).wf() ==> final(self).wf(),
            final(self).same_frame(old(self)),
            final(self)@ == old(self)@.return_to_caller(value),
    {
        let frame = match self.context.call_stack.pop() {
            Some(f) => f,
            None => {
                return ;
            },
        };
        self.context.value_stack.truncate(frame.base_pointer);
        self.context.value_stack.push(value);
        self.context.environment_stack.truncate(frame.environment_depth);
        self.context.effect_handlers.truncate(frame.handler_depth);
        self.context.instruction_pointer = frame.return_address;
    }
}

/// Where one of the handles names no string, the names of a longer run of
/// handles fail with the same error.
pub proof fn lemma_names_error(heap: HeapView, handles: Seq<usize>, i: int)
    requires
        0 <= i < handles.len(),
        parameter_names(heap, handles.subrange(0, i)).is_ok(),
        parameter_names(heap, handles.subrange(0, i + 1)).is_err(),
    ensures
        parameter_names(heap, handles) == parameter_names(heap, handles.subrange(0, i + 1)),
    decreases handles.len() - i,
{
    if i + 1 < handles.len() {
        let front = handles.drop_last();
        assert(front.subrange(0, i) == handles.subrange(0, i));
        assert(front.subrange(0, i + 1) == handles.subrange(0, i + 1));
        lemma_names_error(heap, front, i);
    } else {
        assert(handles.subrange(0, i + 1) == handles);
    }
}

} // verus!
