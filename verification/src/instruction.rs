//! The instruction set, and the lexical scans that resolve loop labels and
//! match cases in a code segment.

use num::BigInt;
use vstd::prelude::*;

verus! {

/// A constant that an instruction can push.
#[derive(Debug)]
pub enum ConstantValue {
    Null,
    Boolean(bool),
    Integer(BigInt),
    String(String),
    /// The index of a cell that already exists, such as a function or a
    /// coroutine made by an earlier program.
    Reference(usize),
}

/// One instruction of the stack machine.
#[derive(Debug)]
pub enum Instruction {
    /// Pushes a constant.
    PushConstant { value: ConstantValue },
    /// Discards the top of the stack.
    Pop,
    /// Pushes the top of the stack once more.
    Dup,
    /// Exchanges the two topmost values.
    Swap,
    /// Pushes the value of a variable.
    PushVariable { name: String },
    /// Pops a value and stores it in a variable.
    StoreVariable { name: String },
    /// Pops a vector and pushes its element at `index`.
    GetIndex { index: usize },
    /// Pops a value and a vector, stores the value at `index`, pushes it back.
    SetIndex { index: usize },
    /// Pops an object and pushes its property `name`.
    GetProperty { name: String },
    /// Pops a value and an object, stores the property, pushes the value back.
    SetProperty { name: String },
    /// Calls the function that lies under `argument_count` arguments.
    Call { argument_count: usize },
    /// Makes a function of the next `body_size` instructions.
    CreateFunction { name: Option<String>, parameter_count: usize, body_size: usize },
    CreateClosure { captured_variables: Vec<String> },
    /// Pops `size` values and pushes a vector of them.
    CreateArray { size: usize },
    CreateObject { property_count: usize },
    CreateClass { name: String, method_count: usize, property_count: usize },
    CreateTrait { name: String, method_count: usize },
    CreateEnum { name: String, variant_count: usize },
    /// Jumps by `offset`, counted from the next instruction.
    Jump { offset: isize },
    /// Pops a condition and jumps by `offset` where it is falsy.
    JumpIfFalse { offset: isize },
    LoopStart { label: Option<String> },
    LoopEnd { label: Option<String> },
    Break { label: Option<String> },
    Continue { label: Option<String> },
    MatchStart,
    MatchCase { fall_through: bool },
    MatchEnd,
    Return,
    CreateCoroutine,
    ResumeCoroutine,
    YieldCoroutine { value_count: usize },
    Await,
    BlockOn,
    FireThenIgnore,
    RaiseEffect { name: String, argument_count: usize },
    HandleEffect { name: String },
    ResumeEffect { value_count: usize },
    /// Stops the machine.
    Halt,
}

/// How control left an instruction.
#[derive(Debug)]
pub enum ControlFlow {
    /// Execution goes on with the next instruction of the live context.
    Normal,
    /// A loop was left.
    Break,
    /// A loop went back to its start.
    Continue,
    /// The outermost code returned the value with this handle.
    Return(usize),
    /// A coroutine yielded this many values to its resumer.
    Yield(usize),
    /// An asynchronous operation is awaited.
    Await(usize),
    /// The named effect was raised with this many arguments.
    Raise(String, usize),
    /// The machine halted, or ran past the end of the code.
    Halt,
}

/// The mathematical content of a [`ControlFlow`].
pub enum FlowView {
    Normal,
    Break,
    Continue,
    Return(usize),
    Yield(usize),
    Await(usize),
    Raise(Seq<char>, usize),
    Halt,
}

impl View for ControlFlow {
    type V = FlowView;

    open spec fn view(&self) -> FlowView {
        match *self {
            ControlFlow::Normal => FlowView::Normal,
            ControlFlow::Break => FlowView::Break,
            ControlFlow::Continue => FlowView::Continue,
            ControlFlow::Return(v) => FlowView::Return(v),
            ControlFlow::Yield(n) => FlowView::Yield(n),
            ControlFlow::Await(n) => FlowView::Await(n),
            ControlFlow::Raise(name, n) => FlowView::Raise(name@, n),
            ControlFlow::Halt => FlowView::Halt,
        }
    }
}

/// One case of a match, as three places in the code.
#[derive(Debug, Clone, Copy, PartialEq, Eq, Structural)]
pub struct MatchBranch {
    /// Index of the `MatchCase` instruction that tests the guard.
    pub condition_ip: usize,
    /// First instruction of the body.
    pub body_start_ip: usize,
    /// One past the last instruction of the body.
    pub body_end_ip: usize,
}

/// Whether a loop labelled `have` is one that `wanted` asks for: no label
/// asks for any loop.
pub open spec fn label_matches(wanted: Option<String>, have: Option<String>) -> bool {
    match wanted {
        None => true,
        Some(w) => match have {
            Some(h) => w@ == h@,
            None => false,
        },
    }
}

/// The index of the `MatchEnd` that closes the match open at `from`, or,
/// where `stop_at_case` is set, of the next `MatchCase` of that match if it
/// comes first. `depth` counts the matches opened on the way.
pub open spec fn match_scan(code: Seq<Instruction>, from: int, depth: nat, stop_at_case: bool)
    -> Option<int>
    decreases code.len() - from,
{
    if from < 0 || from >= code.len() {
        None
    } else {
        match code[from] {
            Instruction::MatchStart => match_scan(code, from + 1, depth + 1, stop_at_case),
            Instruction::MatchEnd => if depth == 0 {
                Some(from)
            } else {
                match_scan(code, from + 1, (depth - 1) as nat, stop_at_case)
            },
            Instruction::MatchCase { fall_through } => if depth == 0 && stop_at_case {
                Some(from)
            } else {
                match_scan(code, from + 1, depth, stop_at_case)
            },
            _ => match_scan(code, from + 1, depth, stop_at_case),
        }
    }
}

/// The index of the `LoopEnd` that closes the innermost loop around `from`
/// that `label` asks for.
pub open spec fn loop_end_scan(code: Seq<Instruction>, from: int, depth: nat, label: Option<String>)
    -> Option<int>
    decreases code.len() - from,
{
    if from < 0 || from >= code.len() {
        None
    } else {
        match code[from] {
            Instruction::LoopStart { label: l } => loop_end_scan(code, from + 1, depth + 1, label),
            Instruction::LoopEnd { label: l } => if depth == 0 {
                if label_matches(label, l) {
                    Some(from)
                } else {
                    loop_end_scan(code, from + 1, 0, label)
                }
            } else {
                loop_end_scan(code, from + 1, (depth - 1) as nat, label)
            },
            _ => loop_end_scan(code, from + 1, depth, label),
        }
    }
}

/// The index of the `LoopStart` that opens the innermost loop around the
/// instructions before `from` that `label` asks for.
pub open spec fn loop_start_scan(
    code: Seq<Instruction>,
    from: int,
    depth: nat,
    label: Option<String>,
) -> Option<int>
    decreases from,
{
    if from <= 0 || from > code.len() {
        None
    } else {
        match code[from - 1] {
            Instruction::LoopEnd { label: l } => loop_start_scan(code, from - 1, depth + 1, label),
            Instruction::LoopStart { label: l } => if depth == 0 {
                if label_matches(label, l) {
                    Some(from - 1)
                } else {
                    loop_start_scan(code, from - 1, 0, label)
                }
            } else {
                loop_start_scan(code, from - 1, (depth - 1) as nat, label)
            },
            _ => loop_start_scan(code, from - 1, depth, label),
        }
    }
}

/// Whether a loop labelled `have` is one that `wanted` asks for.
pub fn label_fits(wanted: &Option<String>, have: &Option<String>) -> (r: bool)
    ensures
        r == label_matches(*wanted, *have),
{
    match wanted {
        None => true,
        Some(w) => match have {
            Some(h) => *w == *h,
            None => false,
        },
    }
}

/// Finds the end of the match that is open at `from`, or its next case.
pub fn find_match_mark(code: &Vec<Instruction>, from: usize, stop_at_case: bool) -> (r: Option<
    usize,
>)
    ensures
        match r {
            Some(i) => match_scan(code@, from as int, 0, stop_at_case) == Some(i as int),
            None => match_scan(code@, from as int, 0, stop_at_case).is_none(),
        },
{
    let n = code.len();
    let mut i: usize = from;
    let mut depth: usize = 0;
    while i < n
        invariant
            n == code@.len(),
            from <= i,
            depth <= i - from,
            match_scan(code@, from as int, 0, stop_at_case) == match_scan(
                code@,
                i as int,
                depth as nat,
                stop_at_case,
            ),
        decreases n - i,
    {
        match &code[i] {
            Instruction::MatchStart => {
                depth = depth + 1;
            },
            Instruction::MatchEnd => {
                if depth == 0 {
                    return Some(i);
                }
                depth = depth - 1;
            },
            Instruction::MatchCase { fall_through } => {
                if depth == 0 && stop_at_case {
                    return Some(i);
                }
            },
            _ => {},
        }
        i = i + 1;
    }
    None
}

/// Finds the end of the innermost loop around `from` that `label` asks for.
pub fn find_loop_end(code: &Vec<Instruction>, from: usize, label: &Option<String>) -> (r: Option<
    usize,
>)
    ensures
        match r {
            Some(i) => i < code@.len() && loop_end_scan(code@, from as int, 0, *label) == Some(
                i as int,
            ),
            None => loop_end_scan(code@, from as int, 0, *label).is_none(),
        },
{
    let n = code.len();
    let mut i: usize = from;
    let mut depth: usize = 0;
    while i < n
        invariant
            n == code@.len(),
            from <= i,
            depth <= i - from,
            loop_end_scan(code@, from as int, 0, *label) == loop_end_scan(
                code@,
                i as int,
                depth as nat,
                *label,
            ),
        decreases n - i,
    {
        match &code[i] {
            Instruction::LoopStart { label: l } => {
                depth = depth + 1;
            },
            Instruction::LoopEnd { label: l } => {
                if depth == 0 {
                    if label_fits(label, l) {
                        return Some(i);
                    }
                } else {
                    depth = depth - 1;
                }
            },
            _ => {},
        }
        i = i + 1;
    }
    None
}

/// Finds the start of the innermost loop around the instructions before
/// `from` that `label` asks for.
pub fn find_loop_start(code: &Vec<Instruction>, from: usize, label: &Option<String>) -> (r:
    Option<usize>)
    ensures
        match r {
            Some(i) => i < code@.len() && loop_start_scan(code@, from as int, 0, *label) == Some(
                i as int,
            ),
            None => loop_start_scan(code@, from as int, 0, *label).is_none(),
        },
{
    if from > code.len() {
        return None;
    }
    let mut i: usize = from;
    let mut depth: usize = 0;
    while i > 0
        invariant
            i <= from,
            from <= code@.len(),
            depth <= from - i,
            loop_start_scan(code@, from as int, 0, *label) == loop_start_scan(
                code@,
                i as int,
                depth as nat,
                *label,
            ),
        decreases i,
    {
        match &code[i - 1] {
            Instruction::LoopEnd { label: l } => {
                depth = depth + 1;
            },
            Instruction::LoopStart { label: l } => {
                if depth == 0 {
                    if label_fits(label, l) {
                        return Some(i - 1);
                    }
                } else {
                    depth = depth - 1;
                }
            },
            _ => {},
        }
        i = i - 1;
    }
    None
}

/// The target of a jump by `offset` from `next`, the index of the
/// instruction after the jump, where it lies within the code.
pub open spec fn jump_target(next: usize, offset: isize, length: nat) -> Option<usize> {
    if 0 <= next + offset < length {
        Some((next + offset) as usize)
    } else {
        None
    }
}

/// Computes the target of a relative jump.
pub fn resolve_jump(next: usize, offset: isize, length: usize) -> (r: Option<usize>)
    ensures
        r == jump_target(next, offset, length as nat),
{
    if offset >= 0 {
        let forward = offset as usize;
        if next < length && forward < length - next {
            Some(next + forward)
        } else {
            None
        }
    } else {
        let back = (-(offset + 1)) as usize;
        if back < next {
            let target = next - back - 1;
            if target < length {
                Some(target)
            } else {
                None
            }
        } else {
            None
        }
    }
}

/// The mark that `match_scan` finds stands at or after the place where the
/// scan began, within the code.
pub proof fn lemma_match_scan_bounds(code: Seq<Instruction>, from: int, depth: nat, stop_at_case: bool)
    requires
        0 <= from,
    ensures
        match match_scan(code, from, depth, stop_at_case) {
            Some(m) => from <= m < code.len() && (code[m] is MatchEnd || (stop_at_case
                && code[m] is MatchCase)),
            None => true,
        },
    decreases code.len() - from,
{
    if from < code.len() {
        match code[from] {
            Instruction::MatchStart => {
                lemma_match_scan_bounds(code, from + 1, depth + 1, stop_at_case);
            },
            Instruction::MatchEnd => {
                if depth > 0 {
                    lemma_match_scan_bounds(code, from + 1, (depth - 1) as nat, stop_at_case);
                }
            },
            Instruction::MatchCase { fall_through } => {
                if !(depth == 0 && stop_at_case) {
                    lemma_match_scan_bounds(code, from + 1, depth, stop_at_case);
                }
            },
            _ => {
                lemma_match_scan_bounds(code, from + 1, depth, stop_at_case);
            },
        }
    }
}

/// The cases of the match that is open at `from`, in order: each with the
/// place of its `MatchCase`, the start of its body after it, and the end of
/// its body at the next case or at the end of the match. None where the
/// match is not closed.
pub open spec fn match_branches(code: Seq<Instruction>, from: int) -> Option<Seq<MatchBranch>>
    decreases code.len() - from,
{
    if from < 0 {
        None
    } else {
        match match_scan(code, from, 0, true) {
            None => None,
            Some(m) => if m < from || m >= code.len() {
                None
            } else if code[m] is MatchEnd {
                Some(Seq::empty())
            } else {
                match match_scan(code, m + 1, 0, true) {
                    None => None,
                    Some(e) => match match_branches(code, m + 1) {
                        None => None,
                        Some(rest) => Some(
                            seq![
                                MatchBranch {
                                    condition_ip: m as usize,
                                    body_start_ip: (m + 1) as usize,
                                    body_end_ip: e as usize,
                                },
                            ] + rest,
                        ),
                    },
                }
            },
        }
    }
}

/// Lists the cases of the match that is open at `from`.
pub fn find_match_branches(code: &Vec<Instruction>, from: usize) -> (r: Option<Vec<MatchBranch>>)
    ensures
        match r {
            Some(branches) => match_branches(code@, from as int) == Some(branches@),
            None => match_branches(code@, from as int).is_none(),
        },
{
    let n = code.len();
    let mut branches: Vec<MatchBranch> = Vec::new();
    let mut at: usize = from;
    loop
        invariant
            n == code@.len(),
            from <= at,
            match match_branches(code@, at as int) {
                Some(rest) => match_branches(code@, from as int) == Some(branches@ + rest),
                None => match_branches(code@, from as int).is_none(),
            },
        decreases n + 1 - at,
    {
        proof {
            lemma_match_scan_bounds(code@, at as int, 0, true);
        }
        let mark = match find_match_mark(code, at, true) {
            Some(m) => m,
            None => {
                return None;
            },
        };
        match &code[mark] {
            Instruction::MatchEnd => {
                assert(match_branches(code@, at as int) == Some(Seq::<MatchBranch>::empty()));
                assert(branches@ + Seq::<MatchBranch>::empty() == branches@);
                return Some(branches);
            },
            _ => {},
        }
        proof {
            lemma_match_scan_bounds(code@, mark + 1, 0, true);
        }
        let end = match find_match_mark(code, mark + 1, true) {
            Some(e) => e,
            None => {
                return None;
            },
        };
        let branch = MatchBranch { condition_ip: mark, body_start_ip: mark + 1, body_end_ip: end };
        proof {
            match match_branches(code@, mark + 1) {
                Some(rest) => {
                    assert((branches@.push(branch)) + rest == branches@ + (seq![branch] + rest));
                },
                None => {},
            }
        }
        branches.push(branch);
        at = mark + 1;
    }
}

} // verus!
