//! The virtual machine: its state, what each plain instruction does to it,
//! and the helpers that the other instruction groups build on.

use crate::context::{ContextView, ExecutionContext};
use crate::error::{ErrorView, VmError};
use crate::handle::Gc;
use crate::heap::{Heap, HeapView};
use crate::instruction::{resolve_jump, jump_target, ConstantValue, ControlFlow, FlowView};
use crate::object::{entry_lookup, entry_store};
use crate::value::{mismatch, type_name_of, Value, ValueHandler, ValueType, ValueView};
use vstd::prelude::*;

verus! {

/// Where the machine stands.
#[derive(Debug)]
pub enum VmState {
    /// Nothing was executed yet.
    Initial,
    /// A program is being executed.
    Running,
    /// Execution stopped short of the end and can go on.
    Suspended,
    /// The last program ran to its end.
    Completed,
    /// The last program failed with this error.
    Failed(VmError),
}

/// The mathematical content of a [`VmState`].
pub enum StateView {
    Initial,
    Running,
    Suspended,
    Completed,
    Failed(ErrorView),
}

impl View for VmState {
    type V = StateView;

    open spec fn view(&self) -> StateView {
        match *self {
            VmState::Initial => StateView::Initial,
            VmState::Running => StateView::Running,
            VmState::Suspended => StateView::Suspended,
            VmState::Completed => StateView::Completed,
            VmState::Failed(e) => StateView::Failed(e@),
        }
    }
}

/// A virtual machine.
#[derive(Debug)]
pub struct VirtualMachine {
    /// The heap that holds every value.
    pub heap: Heap,
    /// Where the machine stands.
    pub state: VmState,
    /// The code segment: every program executed so far, one after another.
    pub instructions: Vec<crate::instruction::Instruction>,
    /// The context of the live fiber.
    pub context: ExecutionContext,
    /// The contexts of the fibers that wait for a coroutine they resumed,
    /// outermost first.
    pub resumers: Vec<ExecutionContext>,
    /// The handles of the coroutines that run, outermost first: the last one
    /// owns the live context.
    pub coroutines: Vec<usize>,
    /// Handle of the object that holds the global variables.
    pub globals: usize,
    /// The most values the value stack may hold when an instruction starts.
    pub max_stack_depth: usize,
    /// The most frames the call stack may hold when an instruction starts.
    pub max_call_depth: usize,
    /// The number of allocations after which the collector runs; 0 for never.
    pub gc_threshold: usize,
    /// Allocations since the collector last ran.
    pub allocations: usize,
    /// The most instructions one call of `execute` runs.
    pub step_limit: usize,
}

/// The part of the machine that instructions act on.
pub struct VmView {
    pub heap: HeapView,
    pub context: ContextView,
    pub resumers: Seq<ContextView>,
    pub coroutines: Seq<usize>,
    pub globals: usize,
    pub max_stack_depth: usize,
    pub max_call_depth: usize,
    pub allocations: usize,
}

/// A machine after an instruction, and how control left the instruction.
pub type Outcome = (VmView, Result<FlowView, ErrorView>);

/// The outcome as the contracts state it.
pub open spec fn flow_view(r: Result<ControlFlow, VmError>) -> Result<FlowView, ErrorView> {
    match r {
        Ok(f) => Ok(f@),
        Err(e) => Err(e@),
    }
}

/// The contexts of a stack of fibers.
pub open spec fn contexts_view(contexts: Seq<ExecutionContext>) -> Seq<ContextView> {
    Seq::new(contexts.len(), |i: int| contexts[i]@)
}

/// The text of the error for an instruction that the machine does not run.
pub open spec fn not_implemented() -> Seq<char> {
    "Instruction not implemented"@
}

/// The value that a constant stands for; a reference stands for no value of
/// its own.
pub open spec fn constant_view(c: ConstantValue) -> ValueView {
    match c {
        ConstantValue::Null => ValueView::Null,
        ConstantValue::Boolean(b) => ValueView::Boolean(b),
        ConstantValue::Integer(n) => ValueView::Integer(n),
        ConstantValue::String(s) => ValueView::String(s@),
        ConstantValue::Reference(_) => ValueView::Null,
    }
}

impl VmView {
    /// The heap is well formed and every waiting fiber waits for one running
    /// coroutine.
    pub open spec fn wf(self) -> bool {
        self.heap.wf() && self.resumers.len() == self.coroutines.len()
    }

    /// The value stack of the live context.
    pub open spec fn stack(self) -> Seq<usize> {
        self.context.value_stack
    }

    /// The machine with another value stack.
    pub open spec fn with_stack(self, stack: Seq<usize>) -> VmView {
        VmView { context: ContextView { value_stack: stack, ..self.context }, ..self }
    }

    /// The machine with another instruction pointer.
    pub open spec fn with_ip(self, ip: usize) -> VmView {
        VmView { context: ContextView { instruction_pointer: ip, ..self.context }, ..self }
    }

    /// The machine with another heap.
    pub open spec fn with_heap(self, heap: HeapView) -> VmView {
        VmView { heap, ..self }
    }

    /// The machine after pushing a handle.
    pub open spec fn push(self, h: usize) -> VmView {
        self.with_stack(self.stack().push(h))
    }

    /// The machine after dropping the `n` topmost values.
    pub open spec fn drop(self, n: int) -> VmView {
        self.with_stack(self.stack().subrange(0, self.stack().len() - n))
    }

    /// The `k`-th value from the top of the stack, the top being the 0th.
    pub open spec fn top(self, k: int) -> usize {
        self.stack()[self.stack().len() - 1 - k]
    }

    /// The machine after allocating `value`; the new cell has the index
    /// `self.heap.next_index()`.
    pub open spec fn allocated(self, value: ValueView) -> VmView {
        VmView {
            heap: self.heap.allocate(value),
            allocations: if self.allocations < usize::MAX {
                (self.allocations + 1) as usize
            } else {
                self.allocations
            },
            ..self
        }
    }

    /// The machine after allocating `value` and pushing its handle.
    pub open spec fn alloc_push(self, value: ValueView) -> VmView {
        self.allocated(value).push(self.heap.next_index())
    }

    /// `PushConstant`: a reference is pushed as it is; any other constant is
    /// allocated and its handle pushed.
    pub open spec fn push_constant(self, c: ConstantValue) -> Outcome {
        match c {
            ConstantValue::Reference(h) => (self.push(h), Ok(FlowView::Normal)),
            _ => (self.alloc_push(constant_view(c)), Ok(FlowView::Normal)),
        }
    }

    /// `Pop`.
    pub open spec fn pop(self) -> Outcome {
        if self.stack().len() < 1 {
            (self, Err(ErrorView::StackUnderflow))
        } else {
            (self.drop(1), Ok(FlowView::Normal))
        }
    }

    /// `Dup`.
    pub open spec fn dup(self) -> Outcome {
        if self.stack().len() < 1 {
            (self, Err(ErrorView::StackUnderflow))
        } else {
            (self.push(self.top(0)), Ok(FlowView::Normal))
        }
    }

    /// `Swap`.
    pub open spec fn swap(self) -> Outcome {
        if self.stack().len() < 2 {
            (self, Err(ErrorView::StackUnderflow))
        } else {
            (self.drop(2).push(self.top(0)).push(self.top(1)), Ok(FlowView::Normal))
        }
    }

    /// `Jump`: the offset counts from the instruction after the jump, and
    /// the target lies within the code.
    pub open spec fn jump(self, offset: isize, length: nat) -> Outcome {
        match jump_target(self.context.instruction_pointer, offset, length) {
            Some(t) => (self.with_ip(t), Ok(FlowView::Normal)),
            None => (self, Err(ErrorView::InvalidJumpTarget)),
        }
    }

    /// `JumpIfFalse`: the condition is popped; a falsy one jumps.
    pub open spec fn jump_if_false(self, offset: isize, length: nat) -> Outcome {
        if self.stack().len() < 1 {
            (self, Err(ErrorView::StackUnderflow))
        } else {
            match self.heap.deref(self.top(0)) {
                Err(e) => (self.drop(1), Err(e)),
                Ok(v) => if v.truthy() {
                    (self.drop(1), Ok(FlowView::Normal))
                } else {
                    self.drop(1).jump(offset, length)
                },
            }
        }
    }

    /// `GetIndex`: the vector is popped and its element pushed.
    pub open spec fn get_index(self, index: usize) -> Outcome {
        if self.stack().len() < 1 {
            (self, Err(ErrorView::StackUnderflow))
        } else {
            match self.heap.deref(self.top(0)) {
                Err(e) => (self.drop(1), Err(e)),
                Ok(ValueView::Vector(items)) => if index < items.len() {
                    (self.drop(1).push(items[index as int]), Ok(FlowView::Normal))
                } else {
                    (
                        self.drop(1),
                        Err(ErrorView::IndexOutOfBounds { index, length: items.len() as usize }),
                    )
                },
                Ok(v) => (self.drop(1), Err(mismatch(ValueType::Array, v.value_type()))),
            }
        }
    }

    /// `SetIndex`: the value and the vector are popped, the element is
    /// replaced, and the value is pushed back.
    pub open spec fn set_index(self, index: usize) -> Outcome {
        if self.stack().len() < 2 {
            (self, Err(ErrorView::StackUnderflow))
        } else {
            let value = self.top(0);
            let target = self.top(1);
            match self.heap.deref(target) {
                Err(e) => (self.drop(2), Err(e)),
                Ok(ValueView::Vector(items)) => if index < items.len() {
                    (
                        self.drop(2).with_heap(
                            self.heap.store(
                                target,
                                ValueView::Vector(items.update(index as int, value)),
                            ),
                        ).push(value),
                        Ok(FlowView::Normal),
                    )
                } else {
                    (
                        self.drop(2),
                        Err(ErrorView::IndexOutOfBounds { index, length: items.len() as usize }),
                    )
                },
                Ok(v) => (self.drop(2), Err(mismatch(ValueType::Array, v.value_type()))),
            }
        }
    }

    /// `GetProperty`: the object is popped and its property pushed.
    pub open spec fn get_property(self, name: Seq<char>) -> Outcome {
        if self.stack().len() < 1 {
            (self, Err(ErrorView::StackUnderflow))
        } else {
            match self.heap.deref(self.top(0)) {
                Err(e) => (self.drop(1), Err(e)),
                Ok(ValueView::Object(entries)) => match entry_lookup(entries, name) {
                    Some(h) => (self.drop(1).push(h), Ok(FlowView::Normal)),
                    None => (
                        self.drop(1),
                        Err(
                            ErrorView::UndefinedProperty {
                                object_type: type_name_of(ValueType::Object),
                                property: name,
                            },
                        ),
                    ),
                },
                Ok(v) => (self.drop(1), Err(mismatch(ValueType::Object, v.value_type()))),
            }
        }
    }

    /// `SetProperty`: the value and the object are popped, the property is
    /// stored, and the value is pushed back.
    pub open spec fn set_property(self, name: Seq<char>) -> Outcome {
        if self.stack().len() < 2 {
            (self, Err(ErrorView::StackUnderflow))
        } else {
            let value = self.top(0);
            let target = self.top(1);
            match self.heap.deref(target) {
                Err(e) => (self.drop(2), Err(e)),
                Ok(ValueView::Object(entries)) => (
                    self.drop(2).with_heap(
                        self.heap.store(target, ValueView::Object(entry_store(entries, name, value))),
                    ).push(value),
                    Ok(FlowView::Normal),
                ),
                Ok(v) => (self.drop(2), Err(mismatch(ValueType::Object, v.value_type()))),
            }
        }
    }

    /// `CreateArray`: the `size` topmost values become a vector, in stack
    /// order.
    pub open spec fn create_array(self, size: usize) -> Outcome {
        if self.stack().len() < size {
            (self, Err(ErrorView::StackUnderflow))
        } else {
            (
                self.drop(size as int).alloc_push(
                    ValueView::Vector(
                        self.stack().subrange(self.stack().len() - size, self.stack().len() as int),
                    ),
                ),
                Ok(FlowView::Normal),
            )
        }
    }

    /// An instruction that the machine does not run.
    pub open spec fn unsupported(self) -> Outcome {
        (self, Err(ErrorView::RuntimeError(not_implemented())))
    }
}

impl View for VirtualMachine {
    type V = VmView;

    open spec fn view(&self) -> VmView {
        VmView {
            heap: self.heap@,
            context: self.context@,
            resumers: contexts_view(self.resumers@),
            coroutines: self.coroutines@,
            globals: self.globals,
            max_stack_depth: self.max_stack_depth,
            max_call_depth: self.max_call_depth,
            allocations: self.allocations,
        }
    }
}

impl VirtualMachine {
    /// Whether the machine's invariant holds.
    pub open spec fn wf(&self) -> bool {
        self@.wf()
    }

    /// What the instructions leave alone: the code, the state and the
    /// settings of the collector and of `execute`.
    pub open spec fn same_frame(&self, other: &VirtualMachine) -> bool {
        &&& self.instructions == other.instructions
        &&& self.state == other.state
        &&& self.gc_threshold == other.gc_threshold
        &&& self.step_limit == other.step_limit
    }

    /// Allocates a value and counts the allocation; returns the index of
    /// the cell.
    pub(crate) fn allocate_cell(&mut self, value: Value) -> (r: usize)
        requires
            old(self).wf(),
        ensures
            final(self).wf(),
            final(self).same_frame(old(self)),
            r == old(self)@.heap.next_index(),
            final(self)@ == old(self)@.allocated(value@),
    {
        let g = self.heap.allocate(value);
        if self.allocations < usize::MAX {
            self.allocations = self.allocations + 1;
        }
        g.index
    }

    /// Puts a value on the heap of the machine and returns the handle to
    /// it. The allocation counts towards the next collection. Nothing but
    /// the handle keeps the value alive: a collection reclaims it unless
    /// the machine holds the handle by then.
    pub fn allocate(&mut self, value: Value) -> (r: Gc<Value>)
        requires
            old(self).wf(),
        ensures
            final(self).wf(),
            final(self).same_frame(old(self)),
            r.index == old(self)@.heap.next_index(),
            final(self)@ == old(self)@.allocated(value@),
            final(self)@.heap.lookup(r.index) == Some(value@),
            old(self)@.closed() && crate::closed::value_bounded(
                value@,
                old(self)@.heap.cells.len() + 1,
            ) ==> final(self)@.closed(),
    {
        proof {
            if self@.closed() && crate::closed::value_bounded(value@, self@.heap.cells.len() + 1) {
                self@.lemma_closed_allocated(value@);
            }
        }
        Gc::new(self.allocate_cell(value))
    }

    /// The value behind a handle.
    pub fn deref(&self, h: usize) -> (r: Result<&Value, VmError>)
        ensures
            match r {
                Ok(v) => self@.heap.deref(h) == Ok::<ValueView, ErrorView>(v@),
                Err(e) => self@.heap.deref(h) == Err::<ValueView, ErrorView>(e@),
            },
    {
        self.heap.view_ref(Gc::<Value>::new(h))
    }

    /// Drops the `n` topmost values of the stack.
    pub(crate) fn drop_values(&mut self, n: usize)
        requires
            n <= old(self)@.stack().len(),
        ensures
            final(self).same_frame(old(self)),
            final(self)@ == old(self)@.drop(n as int),
    {
        let len = self.context.value_stack.len();
        self.context.value_stack.truncate(len - n);
    }

    /// `PushConstant`.
    pub fn push_constant(&mut self, constant: &ConstantValue) -> (r: Result<ControlFlow, VmError>)
        requires
            old(self).wf(),
        ensures
            final(self).wf(),
            final(self).same_frame(old(self)),
            (final(self)@, flow_view(r)) == old(self)@.push_constant(*constant),
    {
        let value = match ValueHandler::new().materialize(constant) {
            Some(v) => v,
            None => {
                match constant {
                    ConstantValue::Reference(h) => {
                        self.context.value_stack.push(*h);
                    },
                    _ => {},
                }
                return Ok(ControlFlow::Normal);
            },
        };
        let h = self.allocate_cell(value);
        self.context.value_stack.push(h);
        Ok(ControlFlow::Normal)
    }

    /// `Pop`.
    pub fn pop(&mut self) -> (r: Result<ControlFlow, VmError>)
        ensures
            old(self).wf() ==> final(self).wf(),
            final(self).same_frame(old(self)),
            (final(self)@, flow_view(r)) == old(self)@.pop(),
    {
        if self.context.value_stack.len() < 1 {
            return Err(VmError::StackUnderflow);
        }
        self.drop_values(1);
        Ok(ControlFlow::Normal)
    }

    /// `Dup`.
    pub fn dup(&mut self) -> (r: Result<ControlFlow, VmError>)
        ensures
            old(self).wf() ==> final(self).wf(),
            final(self).same_frame(old(self)),
            (final(self)@, flow_view(r)) == old(self)@.dup(),
    {
        let n = self.context.value_stack.len();
        if n < 1 {
            return Err(VmError::StackUnderflow);
        }
        let top = self.context.value_stack[n - 1];
        self.context.value_stack.push(top);
        Ok(ControlFlow::Normal)
    }

    /// `Swap`.
    pub fn swap(&mut self) -> (r: Result<ControlFlow, VmError>)
        ensures
            old(self).wf() ==> final(self).wf(),
            final(self).same_frame(old(self)),
            (final(self)@, flow_view(r)) == old(self)@.swap(),
    {
        let n = self.context.value_stack.len();
        if n < 2 {
            return Err(VmError::StackUnderflow);
        }
        let b = self.context.value_stack[n - 1];
        let a = self.context.value_stack[n - 2];
        self.context.value_stack.set(n - 2, b);
        self.context.value_stack.set(n - 1, a);
        assert(self@.stack() =~= old(self)@.drop(2).push(old(self)@.top(0)).push(old(self)@.top(1)).stack());
        Ok(ControlFlow::Normal)
    }

    /// `Jump`.
    pub fn jump(&mut self, offset: isize, length: usize) -> (r: Result<ControlFlow, VmError>)
        ensures
            old(self).wf() ==> final(self).wf(),
            final(self).same_frame(old(self)),
            (final(self)@, flow_view(r)) == old(self)@.jump(offset, length as nat),
    {
        match resolve_jump(self.context.instruction_pointer, offset, length) {
            Some(t) => {
                self.context.instruction_pointer = t;
                Ok(ControlFlow::Normal)
            },
            None => Err(VmError::InvalidJumpTarget),
        }
    }

    /// `JumpIfFalse`.
    pub fn jump_if_false(&mut self, offset: isize, length: usize) -> (r: Result<
        ControlFlow,
        VmError,
    >)
        ensures
            old(self).wf() ==> final(self).wf(),
            final(self).same_frame(old(self)),
            (final(self)@, flow_view(r)) == old(self)@.jump_if_false(offset, length as nat),
    {
        let n = self.context.value_stack.len();
        if n < 1 {
            return Err(VmError::StackUnderflow);
        }
        let condition = self.context.value_stack[n - 1];
        self.drop_values(1);
        let truthy = match self.deref(condition) {
            Ok(v) => v.is_truthy(),
            Err(e) => {
                return Err(e);
            },
        };
        if truthy {
            Ok(ControlFlow::Normal)
        } else {
            self.jump(offset, length)
        }
    }

    /// `GetIndex`.
    pub fn get_index(&mut self, index: usize) -> (r: Result<ControlFlow, VmError>)
        ensures
            old(self).wf() ==> final(self).wf(),
            final(self).same_frame(old(self)),
            (final(self)@, flow_view(r)) == old(self)@.get_index(index),
    {
        let n = self.context.value_stack.len();
        if n < 1 {
            return Err(VmError::StackUnderflow);
        }
        let target = self.context.value_stack[n - 1];
        self.drop_values(1);
        let element = match self.deref(target) {
            Err(e) => {
                return Err(e);
            },
            Ok(Value::Vector(items)) => {
                if index < items.len() {
                    items[index]
                } else {
                    return Err(VmError::IndexOutOfBounds { index, length: items.len() });
                }
            },
            Ok(v) => {
                return Err(v.type_mismatch(ValueType::Array));
            },
        };
        self.context.value_stack.push(element);
        Ok(ControlFlow::Normal)
    }

    /// `SetIndex`.
    pub fn set_index(&mut self, index: usize) -> (r: Result<ControlFlow, VmError>)
        ensures
            old(self).wf() ==> final(self).wf(),
            final(self).same_frame(old(self)),
            (final(self)@, flow_view(r)) == old(self)@.set_index(index),
    {
        let n = self.context.value_stack.len();
        if n < 2 {
            return Err(VmError::StackUnderflow);
        }
        let value = self.context.value_stack[n - 1];
        let target = self.context.value_stack[n - 2];
        self.drop_values(2);
        match self.deref(target) {
            Err(e) => {
                return Err(e);
            },
            Ok(Value::Vector(items)) => {
                if index >= items.len() {
                    return Err(VmError::IndexOutOfBounds { index, length: items.len() });
                }
            },
            Ok(v) => {
                return Err(v.type_mismatch(ValueType::Array));
            },
        }
        match self.heap.view_mut(Gc::<Value>::new(target)) {
            Ok(Value::Vector(items)) => {
                items.set(index, value);
            },
            _ => {
                return Err(VmError::InvalidHandle(target));
            },
        }
        self.context.value_stack.push(value);
        Ok(ControlFlow::Normal)
    }

    /// `GetProperty`.
    pub fn get_property(&mut self, name: &String) -> (r: Result<ControlFlow, VmError>)
        ensures
            old(self).wf() ==> final(self).wf(),
            final(self).same_frame(old(self)),
            (final(self)@, flow_view(r)) == old(self)@.get_property(name@),
    {
        let n = self.context.value_stack.len();
        if n < 1 {
            return Err(VmError::StackUnderflow);
        }
        let target = self.context.value_stack[n - 1];
        self.drop_values(1);
        let found = match self.deref(target) {
            Err(e) => {
                return Err(e);
            },
            Ok(Value::Object(object)) => object.get(name.as_str()),
            Ok(v) => {
                return Err(v.type_mismatch(ValueType::Object));
            },
        };
        match found {
            Some(h) => {
                self.context.value_stack.push(h);
                Ok(ControlFlow::Normal)
            },
            None => Err(
                VmError::UndefinedProperty {
                    object_type: ValueType::Object.name(),
                    property: name.clone(),
                },
            ),
        }
    }

    /// `SetProperty`.
    pub fn set_property(&mut self, name: &String) -> (r: Result<ControlFlow, VmError>)
        ensures
            old(self).wf() ==> final(self).wf(),
            final(self).same_frame(old(self)),
            (final(self)@, flow_view(r)) == old(self)@.set_property(name@),
    {
        let n = self.context.value_stack.len();
        if n < 2 {
            return Err(VmError::StackUnderflow);
        }
        let value = self.context.value_stack[n - 1];
        let target = self.context.value_stack[n - 2];
        self.drop_values(2);
        match self.deref(target) {
            Err(e) => {
                return Err(e);
            },
            Ok(Value::Object(_)) => {},
            Ok(v) => {
                return Err(v.type_mismatch(ValueType::Object));
            },
        }
        match self.heap.view_mut(Gc::<Value>::new(target)) {
            Ok(Value::Object(object)) => {
                object.insert(name.clone(), value);
            },
            _ => {
                return Err(VmError::InvalidHandle(target));
            },
        }
        self.context.value_stack.push(value);
        Ok(ControlFlow::Normal)
    }

    /// `CreateArray`.
    pub fn create_array(&mut self, size: usize) -> (r: Result<ControlFlow, VmError>)
        requires
            old(self).wf(),
        ensures
            final(self).wf(),
            final(self).same_frame(old(self)),
            (final(self)@, flow_view(r)) == old(self)@.create_array(size),
    {
        let n = self.context.value_stack.len();
        if n < size {
            return Err(VmError::StackUnderflow);
        }
        let mut items: Vec<usize> = Vec::new();
        let mut i: usize = n - size;
        while i < n
            invariant
                n == self.context.value_stack@.len(),
                size <= n,
                n - size <= i <= n,
                items@ == self.context.value_stack@.subrange(n - size, i as int),
            decreases n - i,
        {
            items.push(self.context.value_stack[i]);
            assert(self.context.value_stack@.subrange(n - size, i + 1)
                == self.context.value_stack@.subrange(n - size, i as int).push(
                self.context.value_stack@[i as int],
            ));
            i = i + 1;
        }
        self.drop_values(size);
        let h = self.allocate_cell(Value::Vector(items));
        self.context.value_stack.push(h);
        Ok(ControlFlow::Normal)
    }

    /// An instruction that the machine does not run.
    pub(crate) fn unsupported(&mut self) -> (r: Result<ControlFlow, VmError>)
        ensures
            old(self).wf() ==> final(self).wf(),
            final(self).same_frame(old(self)),
            (final(self)@, flow_view(r)) == old(self)@.unsupported(),
    {
        Err(VmError::RuntimeError("Instruction not implemented".to_owned()))
    }
}

} // verus!
