//! Loops and matches: their marks in the code are found by scanning, and a
//! jump out of a function body takes the frames of that body with it.

use crate::call::truncated;
use crate::context::{ContextView, FrameKind, NyarFrame};
use crate::error::{ErrorView, VmError};
use crate::instruction::{
    find_loop_end, find_loop_start, find_match_mark, loop_end_scan, loop_start_scan, match_scan,
    ControlFlow, FlowView, Instruction,
};
use crate::vm::{flow_view, Outcome, VirtualMachine, VmView};
use vstd::prelude::*;

verus! {

/// The text of a label; the empty text for no label.
pub open spec fn label_text(label: Option<String>) -> Seq<char> {
    match label {
        Some(s) => s@,
        None => Seq::empty(),
    }
}

/// Whether the body of the frame holds the instruction `target`, or ends
/// just before it.
pub open spec fn frame_holds(frame: NyarFrame, target: usize) -> bool {
    frame.body_start <= target <= frame.body_end
}

/// The context after the frames whose bodies do not hold `target` were
/// dropped, innermost first; none where a frame that is not a plain call
/// would have to go.
pub open spec fn unwound(c: ContextView, target: usize) -> Option<ContextView>
    decreases c.call_stack.len(),
{
    if c.call_stack.len() == 0 {
        Some(c)
    } else {
        let frame = c.call_stack.last();
        if frame_holds(frame, target) {
            Some(c)
        } else if frame.kind != FrameKind::Call {
            None
        } else {
            unwound(
                ContextView {
                    instruction_pointer: c.instruction_pointer,
                    value_stack: truncated(c.value_stack, frame.base_pointer),
                    call_stack: c.call_stack.drop_last(),
                    environment_stack: truncated(c.environment_stack, frame.environment_depth),
                    effect_handlers: truncated(c.effect_handlers, frame.handler_depth),
                },
                target,
            )
        }
    }
}

impl VmView {
    /// The machine after a jump to `target` that may leave function bodies.
    pub open spec fn leave_to(self, target: usize, label: Option<String>, flow: FlowView) -> Outcome {
        match unwound(self.context, target) {
            Some(c) => (
                self.with_context(ContextView { instruction_pointer: target, ..c }),
                Ok(flow),
            ),
            None => (self, Err(ErrorView::InvalidLabel(label_text(label)))),
        }
    }

    /// `Break`: execution goes on after the end of the innermost loop that
    /// the label asks for.
    pub open spec fn break_loop(self, code: Seq<Instruction>, label: Option<String>) -> Outcome {
        match loop_end_scan(code, self.context.instruction_pointer as int, 0, label) {
            Some(e) => self.leave_to((e + 1) as usize, label, FlowView::Break),
            None => (self, Err(ErrorView::InvalidLabel(label_text(label)))),
        }
    }

    /// `Continue`: execution goes on after the start of the innermost loop
    /// that the label asks for.
    pub open spec fn continue_loop(self, code: Seq<Instruction>, label: Option<String>) -> Outcome {
        match loop_start_scan(code, self.context.instruction_pointer - 1, 0, label) {
            Some(s) => self.leave_to((s + 1) as usize, label, FlowView::Continue),
            None => (self, Err(ErrorView::InvalidLabel(label_text(label)))),
        }
    }

    /// `LoopEnd`: execution goes back to the start of the loop that ends
    /// here.
    pub open spec fn loop_end(self, code: Seq<Instruction>) -> Outcome {
        match loop_start_scan(code, self.context.instruction_pointer - 1, 0, None) {
            Some(s) => (self.with_ip((s + 1) as usize), Ok(FlowView::Normal)),
            None => (self, Err(ErrorView::InvalidJumpTarget)),
        }
    }

    /// `MatchCase`: the guard is popped. A truthy guard enters the case. A
    /// falsy one goes to the next case of the match where `fall_through` is
    /// set, and to the end of the match otherwise.
    pub open spec fn match_case(self, code: Seq<Instruction>, fall_through: bool) -> Outcome {
        if self.stack().len() < 1 {
            (self, Err(ErrorView::StackUnderflow))
        } else {
            match self.heap.deref(self.top(0)) {
                Err(e) => (self.drop(1), Err(e)),
                Ok(v) => if v.truthy() {
                    (self.drop(1), Ok(FlowView::Normal))
                } else {
                    match match_scan(
                        code,
                        self.context.instruction_pointer as int,
                        0,
                        fall_through,
                    ) {
                        Some(m) => (self.drop(1).with_ip(m as usize), Ok(FlowView::Normal)),
                        None => (self.drop(1), Err(ErrorView::InvalidJumpTarget)),
                    }
                },
            }
        }
    }
}

/// The error for a label that no loop around carries.
pub fn invalid_label(label: &Option<String>) -> (r: VmError)
    ensures
        r@ == ErrorView::InvalidLabel(label_text(*label)),
{
    match label {
        Some(s) => VmError::InvalidLabel(s.clone()),
        None => VmError::InvalidLabel(String::new()),
    }
}

impl VirtualMachine {
    /// Drops the frames whose bodies do not hold `target` and goes on there.
    pub(crate) fn leave_to(&mut self, target: usize, label: &Option<String>, flow: ControlFlow) -> (r:
        Result<ControlFlow, VmError>)
        ensures
            old(self).wf() ==> final(self).wf(),
            final(self).same_frame(old(self)),
            (final(self)@, flow_view(r)) == old(self)@.leave_to(target, *label, flow@),
    {
        // How many frames stay.
        let mut keep: usize = self.context.call_stack.len();
        let mut stack_len: usize = self.context.value_stack.len();
        let mut env_len: usize = self.context.environment_stack.len();
        let mut handler_len: usize = self.context.effect_handlers.len();
        let ghost start = self.context@;
        proof {
            assert(start.value_stack.subrange(0, stack_len as int) == start.value_stack);
            assert(start.call_stack.subrange(0, keep as int) == start.call_stack);
            assert(start.environment_stack.subrange(0, env_len as int)
                == start.environment_stack);
            assert(start.effect_handlers.subrange(0, handler_len as int)
                == start.effect_handlers);
        }
        loop
            invariant
                start == self.context@,
                keep <= start.call_stack.len(),
                stack_len <= start.value_stack.len(),
                env_len <= start.environment_stack.len(),
                handler_len <= start.effect_handlers.len(),
                unwound(start, target) == unwound(
                    ContextView {
                        instruction_pointer: start.instruction_pointer,
                        value_stack: start.value_stack.subrange(0, stack_len as int),
                        call_stack: start.call_stack.subrange(0, keep as int),
                        environment_stack: start.environment_stack.subrange(0, env_len as int),
                        effect_handlers: start.effect_handlers.subrange(0, handler_len as int),
                    },
                    target,
                ),
            ensures
                unwound(start, target) == Some(
                    ContextView {
                        instruction_pointer: start.instruction_pointer,
                        value_stack: start.value_stack.subrange(0, stack_len as int),
                        call_stack: start.call_stack.subrange(0, keep as int),
                        environment_stack: start.environment_stack.subrange(0, env_len as int),
                        effect_handlers: start.effect_handlers.subrange(0, handler_len as int),
                    },
                ),
            decreases keep,
        {
            let ghost current = ContextView {
                instruction_pointer: start.instruction_pointer,
                value_stack: start.value_stack.subrange(0, stack_len as int),
                call_stack: start.call_stack.subrange(0, keep as int),
                environment_stack: start.environment_stack.subrange(0, env_len as int),
                effect_handlers: start.effect_handlers.subrange(0, handler_len as int),
            };
            if keep == 0 {
                break ;
            }
            let frame = self.context.call_stack[keep - 1];
            assert(current.call_stack.last() == frame);
            if frame.body_start <= target && target <= frame.body_end {
                break ;
            }
            match frame.kind {
                FrameKind::Call => {},
                _ => {
                    return Err(invalid_label(label));
                },
            }
            proof {
                assert(current.call_stack.drop_last() == start.call_stack.subrange(
                    0,
                    keep - 1,
                ));
                assert(truncated(current.value_stack, frame.base_pointer)
                    == start.value_stack.subrange(
                    0,
                    if frame.base_pointer <= stack_len {
                        frame.base_pointer as int
                    } else {
                        stack_len as int
                    },
                ));
                assert(truncated(current.environment_stack, frame.environment_depth)
                    == start.environment_stack.subrange(
                    0,
                    if frame.environment_depth <= env_len {
                        frame.environment_depth as int
                    } else {
                        env_len as int
                    },
                ));
                assert(truncated(current.effect_handlers, frame.handler_depth)
                    == start.effect_handlers.subrange(
                    0,
                    if frame.handler_depth <= handler_len {
                        frame.handler_depth as int
                    } else {
                        handler_len as int
                    },
                ));
            }
            keep = keep - 1;
            if frame.base_pointer <= stack_len {
                stack_len = frame.base_pointer;
            }
            if frame.environment_depth <= env_len {
                env_len = frame.environment_depth;
            }
            if frame.handler_depth <= handler_len {
                handler_len = frame.handler_depth;
            }
        }
        self.context.call_stack.truncate(keep);
        self.context.value_stack.truncate(stack_len);
        self.context.environment_stack.truncate(env_len);
        self.context.effect_handlers.truncate(handler_len);
        self.context.instruction_pointer = target;
        Ok(flow)
    }

    /// `Break`.
    pub fn break_loop(&mut self, code: &Vec<Instruction>, label: &Option<String>) -> (r: Result<
        ControlFlow,
        VmError,
    >)
        ensures
            old(self).wf() ==> final(self).wf(),
            final(self).same_frame(old(self)),
            (final(self)@, flow_view(r)) == old(self)@.break_loop(code@, *label),
    {
        let length = code.len();
        match find_loop_end(code, self.context.instruction_pointer, label) {
            Some(e) => self.leave_to(e + 1, label, ControlFlow::Break),
            None => Err(invalid_label(label)),
        }
    }

    /// `Continue`.
    pub fn continue_loop(&mut self, code: &Vec<Instruction>, label: &Option<String>) -> (r:
        Result<ControlFlow, VmError>)
        ensures
            old(self).wf() ==> final(self).wf(),
            final(self).same_frame(old(self)),
            (final(self)@, flow_view(r)) == old(self)@.continue_loop(code@, *label),
    {
        let ip = self.context.instruction_pointer;
        let length = code.len();
        if ip == 0 {
            return Err(invalid_label(label));
        }
        match find_loop_start(code, ip - 1, label) {
            Some(s) => self.leave_to(s + 1, label, ControlFlow::Continue),
            None => Err(invalid_label(label)),
        }
    }

    /// `LoopEnd`.
    pub fn loop_end(&mut self, code: &Vec<Instruction>) -> (r: Result<ControlFlow, VmError>)
        ensures
            old(self).wf() ==> final(self).wf(),
            final(self).same_frame(old(self)),
            (final(self)@, flow_view(r)) == old(self)@.loop_end(code@),
    {
        let ip = self.context.instruction_pointer;
        let length = code.len();
        if ip == 0 {
            return Err(VmError::InvalidJumpTarget);
        }
        match find_loop_start(code, ip - 1, &None) {
            Some(s) => {
                self.context.instruction_pointer = s + 1;
                Ok(ControlFlow::Normal)
            },
            None => Err(VmError::InvalidJumpTarget),
        }
    }

    /// `MatchCase`.
    pub fn match_case(&mut self, code: &Vec<Instruction>, fall_through: bool) -> (r: Result<
        ControlFlow,
        VmError,
    >)
        ensures
            old(self).wf() ==> final(self).wf(),
            final(self).same_frame(old(self)),
            (final(self)@, flow_view(r)) == old(self)@.match_case(code@, fall_through),
    {
        let n = self.context.value_stack.len();
        if n < 1 {
            return Err(VmError::StackUnderflow);
        }
        let guard = self.context.value_stack[n - 1];
        self.drop_values(1);
        let truthy = match self.deref(guard) {
            Ok(v) => v.is_truthy(),
            Err(e) => {
                return Err(e);
            },
        };
        if truthy {
            return Ok(ControlFlow::Normal);
        }
        match find_match_mark(code, self.context.instruction_pointer, fall_through) {
            Some(m) => {
                self.context.instruction_pointer = m;
                Ok(ControlFlow::Normal)
            },
            None => Err(VmError::InvalidJumpTarget),
        }
    }
}

} // verus!
