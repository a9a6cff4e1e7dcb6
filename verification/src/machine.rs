//! Running programs: one instruction at a time, with the collector between
//! instructions, until the program halts, returns or fails.

use crate::context::{
    forward, forward_all, forward_handle, forward_handles, ContextView, ExecutionContext,
    FrameKind,
};
use crate::error::{ErrorView, VmError};
use crate::gc::Forwarding;
use crate::handle::Gc;
use crate::heap::Heap;
use crate::instruction::{ControlFlow, FlowView, Instruction};
use crate::object::NyarObject;
use crate::value::{name_view, CoroutineState, Value, ValueView};
use crate::vm::{contexts_view, flow_view, Outcome, VirtualMachine, VmState, VmView};
use vstd::prelude::*;

verus! {

/// Every handle that a stack of contexts holds.
pub open spec fn contexts_handles(contexts: Seq<ContextView>) -> Seq<usize>
    decreases contexts.len(),
{
    if contexts.len() == 0 {
        Seq::empty()
    } else {
        contexts_handles(contexts.drop_last()) + contexts.last().handles()
    }
}

/// A stack of contexts with every handle forwarded.
pub open spec fn contexts_forwarded(contexts: Seq<ContextView>, table: Seq<usize>) -> Seq<
    ContextView,
> {
    Seq::new(contexts.len(), |i: int| contexts[i].forwarded(table))
}

pub open spec fn step_limit_text() -> Seq<char> {
    "Step limit reached"@
}

impl VmView {
    /// A new machine: the heap holds the empty global scope in cell 0, the
    /// live context is empty, no fiber waits, the value stack may hold
    /// 1000 values and the call stack 100 frames.
    pub open spec fn fresh() -> VmView {
        VmView {
            heap: crate::heap::HeapView {
                cells: seq![Some(ValueView::Object(Seq::empty()))],
                free: Seq::empty(),
                roots: Seq::empty(),
            },
            context: crate::coroutine::empty_context(),
            resumers: Seq::empty(),
            coroutines: Seq::empty(),
            globals: 0,
            max_stack_depth: 1000,
            max_call_depth: 100,
            allocations: 0,
        }
    }

    /// The machine after the innermost frame ended with `value`: a call
    /// returns to its caller, the body of a coroutine completes the
    /// coroutine, and a handler that did not resume aborts its effect.
    pub open spec fn finish(self, value: usize) -> VmView {
        match self.context.call_stack.last().kind {
            FrameKind::Call => self.return_to_caller(value),
            FrameKind::Coroutine => if self.coroutines.len() > 0 && self.resumers.len() > 0 {
                self.end_coroutine(CoroutineState::Completed, Some(value), value)
            } else {
                self.return_to_caller(value)
            },
            FrameKind::Handler { record, position } => self.abort_effect(record, value),
        }
    }

    /// `Return`: the value on top of the stack is returned. With no frame
    /// on the call stack this ends the program.
    pub open spec fn return_value(self) -> Outcome {
        if self.stack().len() < 1 {
            (self, Err(ErrorView::StackUnderflow))
        } else if self.context.call_stack.len() == 0 {
            (self.drop(1), Ok(FlowView::Return(self.top(0))))
        } else {
            (self.drop(1).finish(self.top(0)), Ok(FlowView::Normal))
        }
    }

    /// `Halt`: every frame is dropped and the program ends.
    pub open spec fn halt(self) -> Outcome {
        (
            self.with_context(ContextView { call_stack: Seq::empty(), ..self.context }),
            Ok(FlowView::Halt),
        )
    }

    /// What one instruction does to the machine whose instruction pointer
    /// already names the instruction after it.
    #[verifier::opaque]
    pub open spec fn dispatch(self, code: Seq<Instruction>, instruction: Instruction) -> Outcome {
        match instruction {
            Instruction::PushConstant { value } => self.push_constant(value),
            Instruction::Pop => self.pop(),
            Instruction::Dup => self.dup(),
            Instruction::Swap => self.swap(),
            Instruction::PushVariable { name } => self.push_variable(name@),
            Instruction::StoreVariable { name } => self.store_variable(name@),
            Instruction::GetIndex { index } => self.get_index(index),
            Instruction::SetIndex { index } => self.set_index(index),
            Instruction::GetProperty { name } => self.get_property(name@),
            Instruction::SetProperty { name } => self.set_property(name@),
            Instruction::Call { argument_count } => self.call(argument_count, code.len()),
            Instruction::CreateFunction { name, parameter_count, body_size } => self.create_function(
                name_view(name),
                parameter_count,
                body_size,
                code.len(),
            ),
            Instruction::CreateClosure { captured_variables } => self.create_closure(
                crate::value::names_view(captured_variables@),
            ),
            Instruction::CreateArray { size } => self.create_array(size),
            Instruction::CreateObject { property_count } => self.create_object(property_count),
            Instruction::CreateClass { name, method_count, property_count } => self.create_class(
                name@,
                method_count,
                property_count,
            ),
            Instruction::CreateTrait { name, method_count } => self.create_trait(
                name@,
                method_count,
            ),
            Instruction::CreateEnum { name, variant_count } => self.create_enum(
                name@,
                variant_count,
            ),
            Instruction::Jump { offset } => self.jump(offset, code.len()),
            Instruction::JumpIfFalse { offset } => self.jump_if_false(offset, code.len()),
            Instruction::LoopStart { label } => (self, Ok(FlowView::Normal)),
            Instruction::LoopEnd { label } => self.loop_end(code),
            Instruction::Break { label } => self.break_loop(code, label),
            Instruction::Continue { label } => self.continue_loop(code, label),
            Instruction::MatchStart => (self, Ok(FlowView::Normal)),
            Instruction::MatchCase { fall_through } => self.match_case(code, fall_through),
            Instruction::MatchEnd => (self, Ok(FlowView::Normal)),
            Instruction::Return => self.return_value(),
            Instruction::CreateCoroutine => self.create_coroutine(),
            Instruction::ResumeCoroutine => self.resume_coroutine(code.len()),
            Instruction::YieldCoroutine { value_count } => self.yield_coroutine(value_count),
            Instruction::RaiseEffect { name, argument_count } => self.raise_effect(
                name@,
                argument_count,
                code.len(),
            ),
            Instruction::HandleEffect { name } => self.handle_effect(name@),
            Instruction::ResumeEffect { value_count } => self.resume_effect(value_count),
            Instruction::Halt => self.halt(),
            _ => self.unsupported(),
        }
    }

    /// Whether the live context stands at the end of the body of its
    /// innermost frame.
    pub open spec fn at_body_end(self, length: nat) -> bool {
        self.context.call_stack.len() > 0 && (self.context.instruction_pointer
            >= self.context.call_stack.last().body_end || self.context.instruction_pointer
            >= length)
    }

    /// One step before failures are contained: the stack guards, the end of
    /// a body or of the code, and the instruction at the instruction
    /// pointer.
    #[verifier::opaque]
    pub open spec fn advance(self, code: Seq<Instruction>) -> Outcome {
        if self.stack().len() > self.max_stack_depth || self.context.call_stack.len()
            > self.max_call_depth {
            (self, Err(ErrorView::StackOverflow))
        } else if self.at_body_end(code.len()) {
            (self.allocated(ValueView::Null).finish(self.heap.next_index()), Ok(FlowView::Normal))
        } else if self.context.instruction_pointer >= code.len() {
            (self, Ok(FlowView::Halt))
        } else {
            self.with_ip((self.context.instruction_pointer + 1) as usize).dispatch(
                code,
                code[self.context.instruction_pointer as int],
            )
        }
    }

    /// One step of the machine. A failure while a coroutine runs fails that
    /// coroutine only: its resumer goes on with null on its stack.
    #[verifier::opaque]
    pub open spec fn step(self, code: Seq<Instruction>) -> Outcome {
        let (after, result) = self.advance(code);
        match result {
            Err(e) => if after.coroutines.len() > 0 {
                (
                    after.allocated(ValueView::Null).end_coroutine(
                        CoroutineState::Failed,
                        None,
                        after.heap.next_index(),
                    ),
                    Ok(FlowView::Normal),
                )
            } else {
                (after, Err(e))
            },
            Ok(f) => (after, Ok(f)),
        }
    }

    /// The handles that keep cells alive: the global scope, the live
    /// context, the waiting contexts and the running coroutines.
    pub open spec fn roots(self) -> Seq<usize> {
        seq![self.globals] + self.context.handles() + contexts_handles(self.resumers)
            + self.coroutines
    }

    /// The machine after a compacting collection: the heap is collected
    /// with the machine's handles as context, and every handle the machine
    /// holds is forwarded.
    pub open spec fn collected(self) -> VmView {
        let table = self.heap.forwarding(self.roots());
        VmView {
            heap: self.heap.collect(self.roots()),
            context: self.context.forwarded(table),
            resumers: contexts_forwarded(self.resumers, table),
            coroutines: forward_all(table, self.coroutines),
            globals: forward(table, self.globals),
            allocations: 0,
            ..self
        }
    }

    /// The machine after the collector had its turn: it runs where a
    /// threshold is set and the allocations have reached it.
    pub open spec fn maintained(self, threshold: usize) -> VmView {
        if threshold > 0 && self.allocations >= threshold {
            self.collected()
        } else {
            self
        }
    }

    /// The machine after running for at most `fuel` steps, and how the run
    /// ended: with the returned value, with nothing where the program
    /// halted or reached the end of the code, or with an error.
    pub open spec fn run(self, code: Seq<Instruction>, fuel: nat, threshold: usize) -> (
        VmView,
        Result<Option<usize>, ErrorView>,
    )
        decreases fuel,
    {
        if fuel == 0 {
            (self, Err(ErrorView::RuntimeError(step_limit_text())))
        } else {
            let (after, result) = self.step(code);
            match result {
                Err(e) => (after, Err(e)),
                Ok(FlowView::Halt) => (after, Ok(None)),
                Ok(FlowView::Return(v)) => (after, Ok(Some(v))),
                Ok(_) => after.maintained(threshold).run(code, (fuel - 1) as nat, threshold),
            }
        }
    }

    /// The machine after a failed run: the frames, the chains and the
    /// waiting fibers are dropped.
    pub open spec fn abandoned(self) -> VmView {
        VmView {
            context: ContextView {
                call_stack: Seq::empty(),
                environment_stack: Seq::empty(),
                effect_handlers: Seq::empty(),
                ..self.context
            },
            resumers: Seq::empty(),
            coroutines: Seq::empty(),
            ..self
        }
    }

    /// The machine after a run that ended as `outcome`, and what `execute`
    /// returns: the returned value, or the top of the stack, popped, or a
    /// new null where the stack is empty.
    pub open spec fn concluded(self, outcome: Result<Option<usize>, ErrorView>) -> (
        VmView,
        Result<usize, ErrorView>,
    ) {
        match outcome {
            Err(e) => (self.abandoned(), Err(e)),
            Ok(Some(v)) => (self, Ok(v)),
            Ok(None) => if self.stack().len() > 0 {
                (self.drop(1), Ok(self.top(0)))
            } else {
                (self.allocated(ValueView::Null), Ok(self.heap.next_index()))
            },
        }
    }

    /// What `execute` does to the machine whose code segment is `code`
    /// after the program was appended at `base`.
    pub open spec fn execute(self, code: Seq<Instruction>, base: usize, fuel: nat, threshold: usize)
        -> (VmView, Result<usize, ErrorView>) {
        let (after, outcome) = self.with_ip(base).run(code, fuel, threshold);
        after.concluded(outcome)
    }
}

/// The dispatcher of the instruction set.
#[derive(Debug)]
pub struct InstructionExecutor {}

impl InstructionExecutor {
    /// A dispatcher.
    pub fn new() -> (r: Self)
        ensures
            r == (InstructionExecutor {  }),
    {
        InstructionExecutor {  }
    }

    /// Executes one instruction of `code` on the machine, whose instruction
    /// pointer already names the instruction after it.
    pub fn execute_instruction(
        &self,
        vm: &mut VirtualMachine,
        code: &Vec<Instruction>,
        instruction: &Instruction,
    ) -> (r: Result<ControlFlow, VmError>)
        requires
            old(vm).wf(),
        ensures
            final(vm).wf(),
            final(vm).same_frame(old(vm)),
            (final(vm)@, flow_view(r)) == old(vm)@.dispatch(code@, *instruction),
    {
        let length = code.len();
        reveal(VmView::dispatch);
        match instruction {
            Instruction::PushConstant { value } => vm.push_constant(value),
            Instruction::Pop => vm.pop(),
            Instruction::Dup => vm.dup(),
            Instruction::Swap => vm.swap(),
            Instruction::PushVariable { name } => vm.push_variable(name),
            Instruction::StoreVariable { name } => vm.store_variable(name),
            Instruction::GetIndex { index } => vm.get_index(*index),
            Instruction::SetIndex { index } => vm.set_index(*index),
            Instruction::GetProperty { name } => vm.get_property(name),
            Instruction::SetProperty { name } => vm.set_property(name),
            Instruction::Call { argument_count } => vm.call(*argument_count, length),
            Instruction::CreateFunction { name, parameter_count, body_size } => vm.create_function(
                name,
                *parameter_count,
                *body_size,
                length,
            ),
            Instruction::CreateClosure { captured_variables } => vm.create_closure(
                captured_variables,
            ),
            Instruction::CreateArray { size } => vm.create_array(*size),
            Instruction::CreateObject { property_count } => vm.create_object(*property_count),
            Instruction::CreateClass { name, method_count, property_count } => vm.create_class(
                name,
                *method_count,
                *property_count,
            ),
            Instruction::CreateTrait { name, method_count } => vm.create_trait(
                name,
                *method_count,
            ),
            Instruction::CreateEnum { name, variant_count } => vm.create_enum(
                name,
                *variant_count,
            ),
            Instruction::Jump { offset } => vm.jump(*offset, length),
            Instruction::JumpIfFalse { offset } => vm.jump_if_false(*offset, length),
            Instruction::LoopStart { label } => Ok(ControlFlow::Normal),
            Instruction::LoopEnd { label } => vm.loop_end(code),
            Instruction::Break { label } => vm.break_loop(code, label),
            Instruction::Continue { label } => vm.continue_loop(code, label),
            Instruction::MatchStart => Ok(ControlFlow::Normal),
            Instruction::MatchCase { fall_through } => vm.match_case(code, *fall_through),
            Instruction::MatchEnd => Ok(ControlFlow::Normal),
            Instruction::Return => vm.return_value(),
            Instruction::CreateCoroutine => vm.create_coroutine(),
            Instruction::ResumeCoroutine => vm.resume_coroutine(length),
            Instruction::YieldCoroutine { value_count } => vm.yield_coroutine(*value_count),
            Instruction::RaiseEffect { name, argument_count } => vm.raise_effect(
                name,
                *argument_count,
                length,
            ),
            Instruction::HandleEffect { name } => vm.handle_effect(name),
            Instruction::ResumeEffect { value_count } => vm.resume_effect(*value_count),
            Instruction::Halt => vm.halt(),
            _ => vm.unsupported(),
        }
    }
}

impl VirtualMachine {
    /// A machine with an empty global scope, a value stack limit of 1000, a
    /// call stack limit of 100, no automatic collection and no step limit
    /// short of the largest number.
    pub fn new() -> (r: Self)
        ensures
            r.wf(),
            r@ == VmView::fresh(),
            r@.closed(),
            r.instructions@.len() == 0,
            r.state is Initial,
            r.gc_threshold == 0,
            r.step_limit == usize::MAX,
    {
        let mut heap = Heap::new();
        let globals = heap.allocate(Value::Object(NyarObject::new()));
        let r = VirtualMachine {
            heap,
            state: VmState::Initial,
            instructions: Vec::new(),
            context: ExecutionContext::new(),
            resumers: Vec::new(),
            coroutines: Vec::new(),
            globals: globals.index,
            max_stack_depth: 1000,
            max_call_depth: 100,
            gc_threshold: 0,
            allocations: 0,
            step_limit: usize::MAX,
        };
        assert(contexts_view(r.resumers@) =~= Seq::empty());
        assert(r@.heap.cells =~= seq![Some(ValueView::Object(Seq::empty()))]);
        r
    }

    /// Ends the innermost frame with `value`.
    pub(crate) fn finish(&mut self, value: usize)
        requires
            old(self).wf(),
            old(self)@.context.call_stack.len() > 0,
        ensures
            final(self).wf(),
            final(self).same_frame(old(self)),
            final(self)@ == old(self)@.finish(value),
    {
        let depth = self.context.call_stack.len();
        let frame = self.context.call_stack[depth - 1];
        match frame.kind {
            FrameKind::Call => {
                self.return_to_caller(value);
            },
            FrameKind::Coroutine => {
                if self.coroutines.len() > 0 {
                    self.end_coroutine(CoroutineState::Completed, Some(value), value);
                } else {
                    self.return_to_caller(value);
                }
            },
            FrameKind::Handler { record, position } => {
                self.abort_effect(record, value);
            },
        }
    }

    /// `Return`.
    pub fn return_value(&mut self) -> (r: Result<ControlFlow, VmError>)
        requires
            old(self).wf(),
        ensures
            final(self).wf(),
            final(self).same_frame(old(self)),
            (final(self)@, flow_view(r)) == old(self)@.return_value(),
    {
        let n = self.context.value_stack.len();
        if n < 1 {
            return Err(VmError::StackUnderflow);
        }
        let value = self.context.value_stack[n - 1];
        self.drop_values(1);
        if self.context.call_stack.len() == 0 {
            Ok(ControlFlow::Return(value))
        } else {
            self.finish(value);
            Ok(ControlFlow::Normal)
        }
    }

    /// `Halt`.
    pub fn halt(&mut self) -> (r: Result<ControlFlow, VmError>)
        ensures
            old(self).wf() ==> final(self).wf(),
            final(self).same_frame(old(self)),
            (final(self)@, flow_view(r)) == old(self)@.halt(),
    {
        self.context.call_stack.clear();
        Ok(ControlFlow::Halt)
    }

    /// One step before failures are contained.
    fn advance(&mut self) -> (r: Result<ControlFlow, VmError>)
        requires
            old(self).wf(),
        ensures
            final(self).wf(),
            final(self).same_frame(old(self)),
            (final(self)@, flow_view(r)) == old(self)@.advance(old(self).instructions@),
    {
        reveal(VmView::advance);
        let depth = self.context.call_stack.len();
        if self.context.value_stack.len() > self.max_stack_depth || depth > self.max_call_depth {
            return Err(VmError::StackOverflow);
        }
        let ip = self.context.instruction_pointer;
        let length = self.instructions.len();
        if depth > 0 {
            let frame = self.context.call_stack[depth - 1];
            if ip >= frame.body_end || ip >= length {
                let null = self.allocate_cell(Value::Null);
                self.finish(null);
                return Ok(ControlFlow::Normal);
            }
        }
        if ip >= length {
            return Ok(ControlFlow::Halt);
        }
        self.context.instruction_pointer = ip + 1;
        let mut code: Vec<Instruction> = Vec::new();
        core::mem::swap(&mut code, &mut self.instructions);
        let executor = InstructionExecutor::new();
        let r = executor.execute_instruction(self, &code, &code[ip]);
        core::mem::swap(&mut code, &mut self.instructions);
        r
    }

    /// Executes the instruction at the instruction pointer, or ends the
    /// body or the program where the pointer stands at an end.
    pub fn execute_instruction(&mut self) -> (r: Result<ControlFlow, VmError>)
        requires
            old(self).wf(),
        ensures
            final(self).wf(),
            final(self).same_frame(old(self)),
            (final(self)@, flow_view(r)) == old(self)@.step(old(self).instructions@),
    {
        reveal(VmView::step);
        match self.advance() {
            Err(e) => {
                if self.coroutines.len() > 0 {
                    let null = self.allocate_cell(Value::Null);
                    self.end_coroutine(CoroutineState::Failed, None, null);
                    Ok(ControlFlow::Normal)
                } else {
                    Err(e)
                }
            },
            Ok(f) => Ok(f),
        }
    }
}

/// How a run ended, as the contracts state it.
pub open spec fn run_view(r: Result<Option<usize>, VmError>) -> Result<Option<usize>, ErrorView> {
    match r {
        Ok(v) => Ok(v),
        Err(e) => Err(e@),
    }
}

/// What `execute` returns, as the contracts state it.
pub open spec fn handle_view(r: Result<Gc<Value>, VmError>) -> Result<usize, ErrorView> {
    match r {
        Ok(g) => Ok(g.index),
        Err(e) => Err(e@),
    }
}

/// The state in which `execute` leaves the machine.
pub open spec fn final_state(r: Result<usize, ErrorView>) -> crate::vm::StateView {
    match r {
        Ok(_) => crate::vm::StateView::Completed,
        Err(e) => crate::vm::StateView::Failed(e),
    }
}

impl VirtualMachine {
    /// Every handle that the machine holds outside the heap.
    pub(crate) fn root_handles(&self) -> (r: Vec<usize>)
        ensures
            r@ == self@.roots(),
    {
        let mut roots: Vec<usize> = Vec::new();
        roots.push(self.globals);
        self.context.trace(&mut roots);
        let ghost base = roots@;
        let n = self.resumers.len();
        let mut i: usize = 0;
        while i < n
            invariant
                n == self.resumers@.len(),
                i <= n,
                roots@ == base + contexts_handles(
                    contexts_view(self.resumers@).subrange(0, i as int),
                ),
            decreases n - i,
        {
            self.resumers[i].trace(&mut roots);
            proof {
                let all = contexts_view(self.resumers@);
                let next = all.subrange(0, i + 1);
                assert(next.drop_last() == all.subrange(0, i as int));
                assert(next.last() == self.resumers@[i as int]@);
                assert(base + contexts_handles(next.drop_last()) + next.last().handles() == base
                    + contexts_handles(next));
            }
            i = i + 1;
        }
        assert(contexts_view(self.resumers@).subrange(0, n as int) == contexts_view(
            self.resumers@,
        ));
        crate::context::append_handles(&mut roots, &self.coroutines);
        assert(base =~= seq![self.globals] + self@.context.handles());
        roots
    }

    /// Runs a compacting collection with every handle that the machine
    /// holds as a root, and rewrites those handles to the new places of
    /// their cells.
    pub fn collect(&mut self) -> (r: Forwarding)
        requires
            old(self).wf(),
        ensures
            final(self).wf(),
            final(self).same_frame(old(self)),
            final(self)@ == old(self)@.collected(),
            r@ == old(self)@.heap.forwarding(old(self)@.roots()),
            old(self)@.closed() ==> final(self)@.closed(),
    {
        proof {
            if self@.closed() {
                self@.lemma_collection_is_safe();
            }
        }
        let roots = self.root_handles();
        let forwarding = self.heap.collect(&roots);
        let table = forwarding.table();
        self.context.rewrite(table);
        let n = self.resumers.len();
        let mut i: usize = 0;
        while i < n
            invariant
                n == self.resumers@.len(),
                n == old(self).resumers@.len(),
                i <= n,
                self.heap@ == old(self)@.heap.collect(old(self)@.roots()),
                self.heap.wf(),
                self.coroutines == old(self).coroutines,
                self.instructions == old(self).instructions,
                self.state == old(self).state,
                self.gc_threshold == old(self).gc_threshold,
                self.step_limit == old(self).step_limit,
                self.globals == old(self).globals,
                self.max_stack_depth == old(self).max_stack_depth,
                self.max_call_depth == old(self).max_call_depth,
                self.context@ == old(self).context@.forwarded(table@),
                forall|j: int|
                    0 <= j < i ==> self.resumers@[j]@ == old(self).resumers@[j]@.forwarded(table@),
                forall|j: int| i <= j < n ==> self.resumers@[j] == old(self).resumers@[j],
            decreases n - i,
        {
            let waiting = &mut self.resumers[i];
            waiting.rewrite(table);
            i = i + 1;
        }
        forward_handles(table, &mut self.coroutines);
        self.globals = forward_handle(table, self.globals);
        self.allocations = 0;
        assert(contexts_view(self.resumers@) =~= contexts_forwarded(
            contexts_view(old(self).resumers@),
            table@,
        ));
        forwarding
    }

    /// Drops the frames, the chains and the waiting fibers.
    pub(crate) fn abandon(&mut self)
        ensures
            old(self).wf() ==> final(self).wf(),
            final(self).same_frame(old(self)),
            final(self)@ == old(self)@.abandoned(),
    {
        self.context.call_stack.clear();
        self.context.environment_stack.clear();
        self.context.effect_handlers.clear();
        self.resumers.clear();
        self.coroutines.clear();
        assert(contexts_view(self.resumers@) =~= Seq::empty());
    }

    /// Runs until the program halts, returns or fails, for at most
    /// `step_limit` instructions.
    pub(crate) fn run(&mut self) -> (r: Result<Option<usize>, VmError>)
        requires
            old(self).wf(),
        ensures
            final(self).wf(),
            final(self).same_frame(old(self)),
            (final(self)@, run_view(r)) == old(self)@.run(
                old(self).instructions@,
                old(self).step_limit as nat,
                old(self).gc_threshold,
            ),
            old(self)@.closed() && crate::safety::reference_free(old(self).instructions@)
                ==> final(self)@.closed() && !(r matches Err(VmError::UseAfterFree(_))),
    {
        let mut fuel = self.step_limit;
        let ghost code = self.instructions@;
        let ghost threshold = self.gc_threshold;
        let ghost start = self@;
        let ghost limit = self.step_limit as nat;
        let mut outcome: Result<Option<usize>, VmError> = Ok(None);
        loop
            invariant_except_break
                start.run(code, limit, threshold) == self@.run(code, fuel as nat, threshold),
            invariant
                self.wf(),
                self.same_frame(old(self)),
                code == self.instructions@,
                threshold == self.gc_threshold,
                start == old(self)@,
                start.closed() && crate::safety::reference_free(code) ==> self@.closed(),
            ensures
                self.wf(),
                self.same_frame(old(self)),
                (self@, run_view(outcome)) == start.run(code, limit, threshold),
                start.closed() && crate::safety::reference_free(code) ==> self@.closed() && !(
                outcome matches Err(VmError::UseAfterFree(_))),
            decreases fuel,
        {
            if fuel == 0 {
                outcome = Err(VmError::RuntimeError("Step limit reached".to_owned()));
                break ;
            }
            proof {
                if start.closed() && crate::safety::reference_free(code) {
                    self@.lemma_step_is_safe(code);
                }
            }
            let ghost before = self@;
            match self.execute_instruction() {
                Err(e) => {
                    outcome = Err(e);
                    break ;
                },
                Ok(ControlFlow::Halt) => {
                    outcome = Ok(None);
                    break ;
                },
                Ok(ControlFlow::Return(v)) => {
                    outcome = Ok(Some(v));
                    break ;
                },
                Ok(_) => {
                    if self.gc_threshold > 0 && self.allocations >= self.gc_threshold {
                        proof {
                            if start.closed() && crate::safety::reference_free(code) {
                                self@.lemma_collection_is_safe();
                            }
                        }
                        let _ = self.collect();
                    }
                    fuel = fuel - 1;
                },
            }
        }
        outcome
    }

    /// Executes a program: appends it to the code segment, runs it from its
    /// first instruction, and returns the handle of its result.
    pub fn execute(&mut self, instructions: Vec<Instruction>) -> (r: Result<Gc<Value>, VmError>)
        requires
            old(self).wf(),
        ensures
            final(self).wf(),
            final(self).instructions@ == old(self).instructions@ + instructions@,
            final(self).gc_threshold == old(self).gc_threshold,
            final(self).step_limit == old(self).step_limit,
            (final(self)@, handle_view(r)) == old(self)@.execute(
                final(self).instructions@,
                old(self).instructions@.len() as usize,
                old(self).step_limit as nat,
                old(self).gc_threshold,
            ),
            final(self).state@ == final_state(handle_view(r)),
            old(self)@.closed() && crate::safety::reference_free(final(self).instructions@)
                ==> final(self)@.closed() && !(r matches Err(VmError::UseAfterFree(_))),
    {
        let base = self.instructions.len();
        let mut program = instructions;
        self.instructions.append(&mut program);
        self.context.instruction_pointer = base;
        self.state = VmState::Running;
        let ghost begun = self@;
        match self.run() {
            Err(e) => {
                proof {
                    if begun.closed() && crate::safety::reference_free(self.instructions@) {
                        self@.lemma_abandoned_is_closed();
                    }
                }
                self.abandon();
                self.state = VmState::Failed(e.duplicate());
                Err(e)
            },
            Ok(Some(v)) => {
                self.state = VmState::Completed;
                Ok(Gc::new(v))
            },
            Ok(None) => {
                let n = self.context.value_stack.len();
                proof {
                    if self@.closed() {
                        if n > 0 {
                            self@.lemma_closed_drop(1);
                        } else {
                            self@.lemma_closed_allocated(ValueView::Null);
                        }
                    }
                }
                let h = if n > 0 {
                    let top = self.context.value_stack[n - 1];
                    self.drop_values(1);
                    top
                } else {
                    self.allocate_cell(Value::Null)
                };
                self.state = VmState::Completed;
                Ok(Gc::new(h))
            },
        }
    }
}

} // verus!
