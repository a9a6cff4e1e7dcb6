//! Execution contexts: the value stack, the call frames, the environment
//! chain and the handler chain of one fiber. A live fiber and a suspended
//! one are both described by an [`ExecutionContext`].

use vstd::prelude::*;

verus! {

/// The index that no cell ever has: what a handle to a collected cell is
/// rewritten to.
pub const DEAD: usize = usize::MAX;

/// Where the handle `h` points after a collection with forwarding table
/// `table`: cells without a new place, and indices outside the table, go to
/// [`DEAD`].
pub open spec fn forward(table: Seq<usize>, h: usize) -> usize {
    if h < table.len() {
        table[h as int]
    } else {
        usize::MAX
    }
}

/// `forward` applied to each handle of a sequence.
pub open spec fn forward_all(table: Seq<usize>, handles: Seq<usize>) -> Seq<usize> {
    Seq::new(handles.len(), |i: int| forward(table, handles[i]))
}

/// Forwarding distributes over concatenation.
pub proof fn lemma_forward_all_concat(table: Seq<usize>, a: Seq<usize>, b: Seq<usize>)
    ensures
        forward_all(table, a + b) == forward_all(table, a) + forward_all(table, b),
{
    assert(forward_all(table, a + b) =~= forward_all(table, a) + forward_all(table, b));
}

/// Looks a handle up in a forwarding table.
pub fn forward_handle(table: &Vec<usize>, h: usize) -> (r: usize)
    ensures
        r == forward(table@, h),
{
    if h < table.len() {
        table[h]
    } else {
        DEAD
    }
}

/// Rewrites every handle of `handles` through the table.
pub fn forward_handles(table: &Vec<usize>, handles: &mut Vec<usize>)
    ensures
        final(handles)@ == forward_all(table@, old(handles)@),
{
    let n = handles.len();
    let mut i: usize = 0;
    while i < n
        invariant
            n == handles@.len(),
            n == old(handles)@.len(),
            i <= n,
            forall|j: int| 0 <= j < i ==> handles@[j] == forward(table@, old(handles)@[j]),
            forall|j: int| i <= j < n ==> handles@[j] == old(handles)@[j],
        decreases n - i,
    {
        let h = handles[i];
        handles.set(i, forward_handle(table, h));
        i = i + 1;
    }
    assert(handles@ =~= forward_all(table@, old(handles)@));
}

/// Appends the items of `src` to `out`.
pub fn append_handles(out: &mut Vec<usize>, src: &Vec<usize>)
    ensures
        final(out)@ == old(out)@ + src@,
{
    let n = src.len();
    let mut i: usize = 0;
    while i < n
        invariant
            n == src@.len(),
            i <= n,
            out@ == old(out)@ + src@.subrange(0, i as int),
        decreases n - i,
    {
        out.push(src[i]);
        assert(src@.subrange(0, i + 1) == src@.subrange(0, i as int).push(src@[i as int]));
        i = i + 1;
    }
    assert(src@.subrange(0, n as int) == src@);
}

/// A copy of a vector of handles.
pub fn copy_handles(src: &Vec<usize>) -> (r: Vec<usize>)
    ensures
        r@ == src@,
{
    let mut out: Vec<usize> = Vec::new();
    append_handles(&mut out, src);
    assert(Seq::<usize>::empty() + src@ == src@);
    out
}

/// What a frame was pushed for.
#[derive(Debug, Clone, Copy, PartialEq, Eq, Structural)]
pub enum FrameKind {
    /// An ordinary call.
    Call,
    /// The body of a coroutine: returning from it completes the coroutine.
    Coroutine,
    /// The body of an effect handler: `record` is the handler record whose
    /// continuation is pending, `position` its place on the handler chain of
    /// the raiser.
    Handler { record: usize, position: usize },
}

/// One entry of the call stack.
#[derive(Debug, Clone, Copy, PartialEq, Eq, Structural)]
pub struct NyarFrame {
    /// Where the caller continues.
    pub return_address: usize,
    /// Length of the value stack when the frame was pushed.
    pub base_pointer: usize,
    /// Handle of the function that runs in this frame.
    pub function: usize,
    /// First instruction of the function's body.
    pub body_start: usize,
    /// One past the last instruction of the function's body.
    pub body_end: usize,
    /// Length of the environment chain when the frame was pushed.
    pub environment_depth: usize,
    /// Length of the handler chain when the frame was pushed.
    pub handler_depth: usize,
    /// What the frame was pushed for.
    pub kind: FrameKind,
}

impl NyarFrame {
    /// The handles a frame holds: its function and, for a handler frame, the
    /// handler record.
    pub open spec fn handles(self) -> Seq<usize> {
        match self.kind {
            FrameKind::Handler { record, position } => seq![self.function, record],
            _ => seq![self.function],
        }
    }

    /// The frame with its handles forwarded.
    pub open spec fn forwarded(self, table: Seq<usize>) -> NyarFrame {
        NyarFrame {
            function: forward(table, self.function),
            kind: match self.kind {
                FrameKind::Handler { record, position } => FrameKind::Handler {
                    record: forward(table, record),
                    position,
                },
                k => k,
            },
            ..self
        }
    }

    /// Appends the frame's handles to `out`.
    pub fn trace(&self, out: &mut Vec<usize>)
        ensures
            final(out)@ == old(out)@ + self.handles(),
    {
        out.push(self.function);
        match self.kind {
            FrameKind::Handler { record, position } => {
                out.push(record);
                assert(out@ =~= old(out)@ + self.handles());
            },
            _ => {
                assert(out@ =~= old(out)@ + self.handles());
            },
        }
    }

    /// The frame with its handles looked up in the table.
    pub fn rewrite(&self, table: &Vec<usize>) -> (r: NyarFrame)
        ensures
            r == self.forwarded(table@),
    {
        let kind = match self.kind {
            FrameKind::Handler { record, position } => FrameKind::Handler {
                record: forward_handle(table, record),
                position,
            },
            k => k,
        };
        NyarFrame {
            return_address: self.return_address,
            base_pointer: self.base_pointer,
            function: forward_handle(table, self.function),
            body_start: self.body_start,
            body_end: self.body_end,
            environment_depth: self.environment_depth,
            handler_depth: self.handler_depth,
            kind,
        }
    }
}

/// The handles held by a stack of frames, bottom frame first.
pub open spec fn frames_handles(frames: Seq<NyarFrame>) -> Seq<usize>
    decreases frames.len(),
{
    if frames.len() == 0 {
        Seq::<usize>::empty()
    } else {
        frames_handles(frames.drop_last()) + frames.last().handles()
    }
}

/// A stack of frames with every handle forwarded.
pub open spec fn frames_forwarded(frames: Seq<NyarFrame>, table: Seq<usize>) -> Seq<NyarFrame> {
    Seq::new(frames.len(), |i: int| frames[i].forwarded(table))
}

/// The handles of forwarded frames are the forwarded handles of the frames.
pub proof fn lemma_frames_forwarded_handles(frames: Seq<NyarFrame>, table: Seq<usize>)
    ensures
        frames_handles(frames_forwarded(frames, table)) == forward_all(
            table,
            frames_handles(frames),
        ),
    decreases frames.len(),
{
    let fw = frames_forwarded(frames, table);
    if frames.len() == 0 {
        assert(forward_all(table, Seq::<usize>::empty()) =~= Seq::<usize>::empty());
    } else {
        lemma_frames_forwarded_handles(frames.drop_last(), table);
        assert(fw.drop_last() =~= frames_forwarded(frames.drop_last(), table));
        assert(fw.last() == frames.last().forwarded(table));
        assert(fw.last().handles() =~= forward_all(table, frames.last().handles()));
        lemma_forward_all_concat(
            table,
            frames_handles(frames.drop_last()),
            frames.last().handles(),
        );
    }
}

/// The state of one fiber: everything that is saved when it is suspended and
/// put back when it is resumed.
#[derive(Debug)]
pub struct ExecutionContext {
    /// Index of the next instruction.
    pub instruction_pointer: usize,
    /// The value stack: handles, top last.
    pub value_stack: Vec<usize>,
    /// The call stack, innermost frame last.
    pub call_stack: Vec<NyarFrame>,
    /// The environment chain: handles of objects, innermost scope last.
    pub environment_stack: Vec<usize>,
    /// The handler chain: handles of handler records, innermost last.
    pub effect_handlers: Vec<usize>,
}

/// The mathematical content of an [`ExecutionContext`].
pub struct ContextView {
    pub instruction_pointer: usize,
    pub value_stack: Seq<usize>,
    pub call_stack: Seq<NyarFrame>,
    pub environment_stack: Seq<usize>,
    pub effect_handlers: Seq<usize>,
}

impl ContextView {
    /// Every handle the context holds.
    pub open spec fn handles(self) -> Seq<usize> {
        self.value_stack + frames_handles(self.call_stack) + self.environment_stack
            + self.effect_handlers
    }

    /// The context with every handle forwarded.
    pub open spec fn forwarded(self, table: Seq<usize>) -> ContextView {
        ContextView {
            instruction_pointer: self.instruction_pointer,
            value_stack: forward_all(table, self.value_stack),
            call_stack: frames_forwarded(self.call_stack, table),
            environment_stack: forward_all(table, self.environment_stack),
            effect_handlers: forward_all(table, self.effect_handlers),
        }
    }

    /// The handles of a forwarded context are the forwarded handles of the
    /// context.
    pub proof fn lemma_forwarded_handles(self, table: Seq<usize>)
        ensures
            self.forwarded(table).handles() == forward_all(table, self.handles()),
    {
        lemma_frames_forwarded_handles(self.call_stack, table);
        let a = self.value_stack;
        let b = frames_handles(self.call_stack);
        let c = self.environment_stack;
        let d = self.effect_handlers;
        lemma_forward_all_concat(table, a, b);
        lemma_forward_all_concat(table, a + b, c);
        lemma_forward_all_concat(table, a + b + c, d);
    }
}

impl View for ExecutionContext {
    type V = ContextView;

    open spec fn view(&self) -> ContextView {
        ContextView {
            instruction_pointer: self.instruction_pointer,
            value_stack: self.value_stack@,
            call_stack: self.call_stack@,
            environment_stack: self.environment_stack@,
            effect_handlers: self.effect_handlers@,
        }
    }
}

impl ExecutionContext {
    /// A context at instruction 0 with empty stacks and chains.
    pub fn new() -> (r: Self)
        ensures
            r@ == (ContextView {
                instruction_pointer: 0,
                value_stack: Seq::empty(),
                call_stack: Seq::empty(),
                environment_stack: Seq::empty(),
                effect_handlers: Seq::empty(),
            }),
    {
        ExecutionContext {
            instruction_pointer: 0,
            value_stack: Vec::new(),
            call_stack: Vec::new(),
            environment_stack: Vec::new(),
            effect_handlers: Vec::new(),
        }
    }

    /// A copy of the context.
    pub fn duplicate(&self) -> (r: Self)
        ensures
            r@ == self@,
    {
        let mut frames: Vec<NyarFrame> = Vec::new();
        let n = self.call_stack.len();
        let mut i: usize = 0;
        while i < n
            invariant
                n == self.call_stack@.len(),
                i <= n,
                frames@ == self.call_stack@.subrange(0, i as int),
            decreases n - i,
        {
            frames.push(self.call_stack[i]);
            assert(self.call_stack@.subrange(0, i + 1) == self.call_stack@.subrange(
                0,
                i as int,
            ).push(self.call_stack@[i as int]));
            i = i + 1;
        }
        assert(self.call_stack@.subrange(0, n as int) == self.call_stack@);
        ExecutionContext {
            instruction_pointer: self.instruction_pointer,
            value_stack: copy_handles(&self.value_stack),
            call_stack: frames,
            environment_stack: copy_handles(&self.environment_stack),
            effect_handlers: copy_handles(&self.effect_handlers),
        }
    }

    /// Pushes a handle on the value stack.
    pub fn push(&mut self, value: usize)
        ensures
            final(self)@ == (ContextView {
                value_stack: old(self)@.value_stack.push(value),
                ..old(self)@
            }),
    {
        self.value_stack.push(value);
    }

    /// Pops the top of the value stack, if there is one.
    pub fn pop(&mut self) -> (r: Option<usize>)
        ensures
            old(self)@.value_stack.len() == 0 ==> r.is_none() && final(self)@ == old(self)@,
            old(self)@.value_stack.len() > 0 ==> r == Some(old(self)@.value_stack.last())
                && final(self)@ == (ContextView {
                value_stack: old(self)@.value_stack.drop_last(),
                ..old(self)@
            }),
    {
        self.value_stack.pop()
    }

    /// The top of the value stack, if there is one.
    pub fn peek(&self) -> (r: Option<usize>)
        ensures
            r == if self@.value_stack.len() > 0 {
                Some(self@.value_stack.last())
            } else {
                None
            },
    {
        let n = self.value_stack.len();
        if n > 0 {
            Some(self.value_stack[n - 1])
        } else {
            None
        }
    }

    /// Appends every handle the context holds to `out`.
    pub fn trace(&self, out: &mut Vec<usize>)
        ensures
            final(out)@ == old(out)@ + self@.handles(),
    {
        append_handles(out, &self.value_stack);
        let ghost base = out@;
        let n = self.call_stack.len();
        let mut i: usize = 0;
        while i < n
            invariant
                n == self.call_stack@.len(),
                i <= n,
                out@ == base + frames_handles(self.call_stack@.subrange(0, i as int)),
            decreases n - i,
        {
            self.call_stack[i].trace(out);
            proof {
                let next = self.call_stack@.subrange(0, i + 1);
                assert(next.drop_last() == self.call_stack@.subrange(0, i as int));
                assert(next.last() == self.call_stack@[i as int]);
                assert(base + frames_handles(next.drop_last()) + next.last().handles() == base
                    + frames_handles(next));
            }
            i = i + 1;
        }
        assert(self.call_stack@.subrange(0, n as int) == self.call_stack@);
        append_handles(out, &self.environment_stack);
        append_handles(out, &self.effect_handlers);
        assert(out@ =~= old(out)@ + self@.handles());
    }

    /// Rewrites every handle the context holds through the table.
    pub fn rewrite(&mut self, table: &Vec<usize>)
        ensures
            final(self)@ == old(self)@.forwarded(table@),
    {
        forward_handles(table, &mut self.value_stack);
        forward_handles(table, &mut self.environment_stack);
        forward_handles(table, &mut self.effect_handlers);
        let n = self.call_stack.len();
        let mut i: usize = 0;
        while i < n
            invariant
                n == self.call_stack@.len(),
                n == old(self).call_stack@.len(),
                i <= n,
                self.instruction_pointer == old(self).instruction_pointer,
                self.value_stack@ == forward_all(table@, old(self).value_stack@),
                self.environment_stack@ == forward_all(table@, old(self).environment_stack@),
                self.effect_handlers@ == forward_all(table@, old(self).effect_handlers@),
                forall|j: int|
                    0 <= j < i ==> self.call_stack@[j] == old(self).call_stack@[j].forwarded(
                        table@,
                    ),
                forall|j: int| i <= j < n ==> self.call_stack@[j] == old(self).call_stack@[j],
            decreases n - i,
        {
            let f = self.call_stack[i].rewrite(table);
            self.call_stack.set(i, f);
            i = i + 1;
        }
        assert(self.call_stack@ =~= frames_forwarded(old(self).call_stack@, table@));
    }
}

} // verus!
