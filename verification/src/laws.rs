//! What holds of the machine whatever the program: the stack discipline,
//! the life of a coroutine, the one-shot continuation of an effect, the
//! scope of a handler, and the collector's respect for suspended fibers.

use crate::context::{forward, ContextView, FrameKind};
use crate::coroutine::{empty_context, legal_transition, resume_finished_text};
use crate::effect::{handler_frame, handler_position, resume_twice_text};
use crate::error::ErrorView;
use crate::gc::lemma_context_survives;
use crate::instruction::{FlowView, Instruction};
use crate::value::{CoroutineState, CoroutineView, HandlerView, ValueView};
use crate::vm::VmView;
use vstd::prelude::*;

verus! {

/// The number of values that an instruction takes from the stack before it
/// looks at anything else.
pub open spec fn operands_needed(instruction: Instruction) -> nat {
    match instruction {
        Instruction::Pop => 1,
        Instruction::Dup => 1,
        Instruction::Swap => 2,
        Instruction::StoreVariable { name } => 1,
        Instruction::GetIndex { index } => 1,
        Instruction::SetIndex { index } => 2,
        Instruction::GetProperty { name } => 1,
        Instruction::SetProperty { name } => 2,
        Instruction::Call { argument_count } => (argument_count + 1) as nat,
        Instruction::CreateArray { size } => size as nat,
        Instruction::CreateObject { property_count } => (2 * property_count) as nat,
        Instruction::CreateClosure { captured_variables } => 1,
        Instruction::CreateClass { name, method_count, property_count } => (2 * method_count + 2
            * property_count) as nat,
        Instruction::CreateTrait { name, method_count } => method_count as nat,
        Instruction::CreateEnum { name, variant_count } => (2 * variant_count) as nat,
        Instruction::JumpIfFalse { offset } => 1,
        Instruction::MatchCase { fall_through } => 1,
        Instruction::Return => 1,
        Instruction::CreateCoroutine => 1,
        Instruction::ResumeCoroutine => 1,
        Instruction::YieldCoroutine { value_count } => value_count as nat,
        Instruction::RaiseEffect { name, argument_count } => argument_count as nat,
        Instruction::HandleEffect { name } => 1,
        Instruction::ResumeEffect { value_count } => value_count as nat,
        _ => 0,
    }
}

/// Stack underflow is an error and changes nothing: an instruction that
/// finds fewer values on the stack than it takes fails with
/// `StackUnderflow` and leaves the machine as it was.
pub proof fn lemma_underflow_is_an_error(vm: VmView, code: Seq<Instruction>, instruction: Instruction)
    requires
        vm.stack().len() < operands_needed(instruction),
    ensures
        vm.dispatch(code, instruction) == (vm, Err::<FlowView, ErrorView>(ErrorView::StackUnderflow)),
{
    reveal(VmView::dispatch);
}

/// Stack overflow is an error and changes nothing: with more values than
/// the stack limit, or more frames than the call limit, no instruction is
/// executed.
pub proof fn lemma_overflow_is_an_error(vm: VmView, code: Seq<Instruction>)
    requires
        vm.stack().len() > vm.max_stack_depth || vm.context.call_stack.len() > vm.max_call_depth,
    ensures
        vm.advance(code) == (vm, Err::<FlowView, ErrorView>(ErrorView::StackOverflow)),
{
    reveal(VmView::advance);
}

/// `Halt` keeps the value stack and drops every frame; the run ends there
/// without an error, and `execute` hands out the top of that stack.
pub proof fn lemma_halt_keeps_the_stack(vm: VmView, code: Seq<Instruction>, fuel: nat, threshold: usize)
    requires
        fuel > 0,
        vm.stack().len() <= vm.max_stack_depth,
        vm.context.call_stack.len() == 0,
        vm.context.instruction_pointer < code.len(),
        code[vm.context.instruction_pointer as int] == Instruction::Halt,
    ensures
        vm.run(code, fuel, threshold).1 == Ok::<Option<usize>, ErrorView>(None),
        vm.run(code, fuel, threshold).0.stack() == vm.stack(),
        vm.run(code, fuel, threshold).0.context.call_stack.len() == 0,
        vm.stack().len() > 0 ==> vm.run(code, fuel, threshold).0.concluded(
            vm.run(code, fuel, threshold).1,
        ).1 == Ok::<usize, ErrorView>(vm.top(0)),
{
    reveal(VmView::dispatch);
    reveal(VmView::advance);
    reveal(VmView::step);
    let advanced = vm.with_ip((vm.context.instruction_pointer + 1) as usize);
    assert(advanced.dispatch(code, Instruction::Halt) == advanced.halt());
    assert(vm.advance(code) == advanced.halt());
}

/// A completed or failed coroutine cannot be resumed: the resume fails with
/// a coroutine error and changes nothing.
pub proof fn lemma_finished_coroutine_stays_finished(vm: VmView, length: nat, record: CoroutineView)
    requires
        vm.stack().len() >= 1,
        vm.heap.lookup(vm.top(0)) == Some(ValueView::Coroutine(record)),
        record.state == CoroutineState::Completed || record.state == CoroutineState::Failed,
    ensures
        vm.resume_coroutine(length) == (
            vm,
            Err::<FlowView, ErrorView>(ErrorView::CoroutineError(resume_finished_text())),
        ),
{
}

/// A yield suspends the running coroutine with the live context, less the
/// yielded values, and hands those values to the resumer in their order.
pub proof fn lemma_yield_hands_values_to_the_resumer(vm: VmView, count: usize, record: CoroutineView)
    requires
        vm.wf(),
        vm.coroutines.len() > 0,
        vm.stack().len() >= count,
        vm.heap.lookup(vm.coroutines.last()) == Some(ValueView::Coroutine(record)),
    ensures
        vm.yield_coroutine(count).1 == Ok::<FlowView, ErrorView>(FlowView::Yield(count)),
        vm.yield_coroutine(count).0.stack() == vm.resumers.last().value_stack + vm.stack().subrange(
            vm.stack().len() - count,
            vm.stack().len() as int,
        ),
        vm.yield_coroutine(count).0.heap.lookup(vm.coroutines.last()) == Some(
            ValueView::Coroutine(
                CoroutineView {
                    state: CoroutineState::Suspended,
                    context: vm.drop(count as int).context,
                    ..record
                },
            ),
        ),
        vm.yield_coroutine(count).0.coroutines == vm.coroutines.drop_last(),
        vm.yield_coroutine(count).0.resumers == vm.resumers.drop_last(),
{
}

/// Round trip: a coroutine that yielded goes on, when it is resumed, in
/// exactly the context in which it yielded, less the yielded values; its
/// resumer waits with the coroutine taken off its stack.
pub proof fn lemma_resume_restores_the_yield(vm: VmView, length: nat, record: CoroutineView)
    requires
        vm.stack().len() >= 1,
        vm.resumers.len() < vm.max_call_depth,
        vm.heap.lookup(vm.top(0)) == Some(ValueView::Coroutine(record)),
        record.state == CoroutineState::Suspended,
    ensures
        vm.resume_coroutine(length).1 == Ok::<FlowView, ErrorView>(FlowView::Normal),
        vm.resume_coroutine(length).0.context == record.context,
        vm.resume_coroutine(length).0.resumers == vm.resumers.push(vm.drop(1).context),
        vm.resume_coroutine(length).0.coroutines == vm.coroutines.push(vm.top(0)),
        vm.resume_coroutine(length).0.heap.lookup(vm.top(0)) == Some(
            ValueView::Coroutine(
                CoroutineView {
                    state: CoroutineState::Running,
                    context: empty_context(),
                    ..record
                },
            ),
        ),
{
}

/// The return of a coroutine's body completes the coroutine: its record
/// keeps the result, and the resumer goes on with the result on its stack.
pub proof fn lemma_return_completes_the_coroutine(vm: VmView, value: usize, record: CoroutineView)
    requires
        vm.wf(),
        vm.coroutines.len() > 0,
        vm.context.call_stack.len() > 0,
        vm.context.call_stack.last().kind == FrameKind::Coroutine,
        vm.heap.lookup(vm.coroutines.last()) == Some(ValueView::Coroutine(record)),
    ensures
        vm.finish(value).context == (ContextView {
            value_stack: vm.resumers.last().value_stack.push(value),
            ..vm.resumers.last()
        }),
        vm.finish(value).heap.lookup(vm.coroutines.last()) == Some(
            ValueView::Coroutine(
                CoroutineView {
                    state: CoroutineState::Completed,
                    context: empty_context(),
                    result: Some(value),
                    ..record
                },
            ),
        ),
        vm.finish(value).coroutines == vm.coroutines.drop_last(),
{
}

/// The state of a coroutine changes only along the arrows of its state
/// machine: a resume takes a new or suspended coroutine to running, and a
/// yield, a return or a failure takes the running one to suspended,
/// completed or failed.
pub proof fn lemma_coroutine_transitions_are_legal(
    vm: VmView,
    length: nat,
    count: usize,
    value: usize,
    record: CoroutineView,
)
    ensures
        vm.stack().len() >= 1 && vm.heap.lookup(vm.top(0)) == Some(ValueView::Coroutine(record))
            && vm.resume_coroutine(length).1.is_ok() ==> legal_transition(
            record.state,
            CoroutineState::Running,
        ),
        legal_transition(CoroutineState::Running, CoroutineState::Suspended),
        legal_transition(CoroutineState::Running, CoroutineState::Completed),
        legal_transition(CoroutineState::Running, CoroutineState::Failed),
        !legal_transition(CoroutineState::Completed, CoroutineState::Running),
        !legal_transition(CoroutineState::Failed, CoroutineState::Running),
{
}

/// Effect linearity: a resume uses the continuation up. After it the
/// handler's record holds no continuation.
pub proof fn lemma_resume_uses_the_continuation(vm: VmView, count: usize)
    requires
        vm.resume_effect(count).1.is_ok(),
    ensures
        match handler_frame(vm.context.call_stack) {
            Some(i) => match vm.resume_effect(count).0.heap.lookup(
                vm.context.call_stack[i].kind->Handler_record,
            ) {
                Some(ValueView::Handler(record)) => record.resume_point.is_none(),
                _ => false,
            },
            None => false,
        },
{
    crate::effect::lemma_handler_frame_bound(vm.context.call_stack);
}

/// Effect linearity: where no handler runs, or the handler that runs holds
/// no continuation, a resume fails with a coroutine error and changes
/// nothing.
pub proof fn lemma_second_resume_fails(vm: VmView, count: usize)
    requires
        vm.stack().len() >= count,
        match handler_frame(vm.context.call_stack) {
            Some(i) => match vm.heap.lookup(vm.context.call_stack[i].kind->Handler_record) {
                Some(ValueView::Handler(record)) => record.resume_point.is_none(),
                _ => true,
            },
            None => true,
        },
    ensures
        vm.resume_effect(count) == (
            vm,
            Err::<FlowView, ErrorView>(ErrorView::CoroutineError(resume_twice_text())),
        ),
{
}

/// Effect linearity: a handler that returns without resuming gives control
/// to the frame that installed it, not to the raiser. The frames above the
/// installing frame are gone, and where the raiser was such a frame,
/// execution goes on where the installing frame had called.
pub proof fn lemma_abort_returns_to_the_installer(
    vm: VmView,
    h: usize,
    value: usize,
    record: HandlerView,
    raiser: ContextView,
)
    requires
        vm.heap.lookup(h) == Some(ValueView::Handler(record)),
        record.resume_point == Some(raiser),
        record.install_depth < raiser.call_stack.len(),
    ensures
        vm.abort_effect(h, value).context.call_stack == raiser.call_stack.subrange(
            0,
            record.install_depth as int,
        ),
        vm.abort_effect(h, value).context.instruction_pointer
            == raiser.call_stack[record.install_depth as int].return_address,
        vm.abort_effect(h, value).context.value_stack.last() == value,
        vm.abort_effect(h, value).heap.lookup(h) == Some(
            ValueView::Handler(HandlerView { resume_point: None, ..record }),
        ),
{
}

/// Handler scoping: when a call returns, the handlers that were installed
/// during the call leave the chain, and an effect that only they handled is
/// unhandled afterwards.
pub proof fn lemma_handlers_leave_with_their_frame(
    vm: VmView,
    value: usize,
    name: Seq<char>,
    count: usize,
    length: nat,
)
    requires
        vm.context.call_stack.len() > 0,
        vm.context.call_stack.last().kind == FrameKind::Call,
        vm.context.call_stack.last().handler_depth <= vm.context.effect_handlers.len(),
        vm.context.call_stack.last().base_pointer >= count,
        vm.context.call_stack.last().base_pointer <= vm.stack().len(),
        handler_position(
            vm.heap,
            vm.context.effect_handlers.subrange(
                0,
                vm.context.call_stack.last().handler_depth as int,
            ),
            name,
        ).is_none(),
    ensures
        vm.finish(value).context.effect_handlers == vm.context.effect_handlers.subrange(
            0,
            vm.context.call_stack.last().handler_depth as int,
        ),
        vm.finish(value).raise_effect(name, count, length) == (
            vm.finish(value),
            Err::<FlowView, ErrorView>(ErrorView::UnhandledEffect(name)),
        ),
{
}

/// The collector respects suspension: a coroutine that the machine holds
/// on top of its stack is, after a collection, the same coroutine at its
/// new place, with every handle of its saved context forwarded. Resuming it
/// there makes that forwarded context the live one.
pub proof fn lemma_collection_keeps_suspended_fibers(vm: VmView, length: nat, record: CoroutineView)
    requires
        vm.wf(),
        vm.stack().len() >= 1,
        vm.resumers.len() < vm.max_call_depth,
        vm.heap.lookup(vm.top(0)) == Some(ValueView::Coroutine(record)),
        record.state == CoroutineState::Suspended,
    ensures
        vm.collected().top(0) == forward(vm.heap.forwarding(vm.roots()), vm.top(0)),
        vm.collected().heap.lookup(vm.collected().top(0)) == Some(
            ValueView::Coroutine(record).forwarded(vm.heap.forwarding(vm.roots())),
        ),
        vm.collected().resume_coroutine(length).1 == vm.resume_coroutine(length).1,
        vm.collected().resume_coroutine(length).0.context == vm.resume_coroutine(
            length,
        ).0.context.forwarded(vm.heap.forwarding(vm.roots())),
{
    let c = vm.top(0);
    let roots = vm.roots();
    let stack = vm.context.value_stack;
    let k = stack.len() - 1;
    assert(vm.context.handles()[k] == c);
    assert(roots[1 + k] == c);
    assert(roots.contains(c));
    lemma_context_survives(vm.heap, roots, c);
}

} // verus!
