//! The compact instruction form: an operation code with numeric operands,
//! which index a pool of constants and a table of local variables, and the
//! interpreter for the part of it that needs nothing but a stack.

use crate::error::{ErrorView, VmError};
use crate::gc::Forwarding;
use crate::handle::Gc;
use crate::instruction::ConstantValue;
use crate::scope::scope_get;
use crate::value::{Value, ValueView};
use crate::vm::{VirtualMachine, VmView};
use vstd::prelude::*;

verus! {

/// The operation of a compact instruction.
#[derive(Debug, Clone, Copy, PartialEq, Eq, Structural)]
pub enum OpCode {
    Push,
    Pop,
    Dup,
    Swap,
    LoadLocal,
    StoreLocal,
    LoadGlobal,
    StoreGlobal,
    Add,
    Sub,
    Mul,
    Div,
    Mod,
    Neg,
    And,
    Or,
    Not,
    Equal,
    NotEqual,
    Less,
    LessEqual,
    Greater,
    GreaterEqual,
    Jump,
    JumpIf,
    JumpIfNot,
    Call,
    Return,
    Yield,
    NewObject,
    GetProperty,
    SetProperty,
    GetMethod,
    CallMethod,
    NewArray,
    GetIndex,
    SetIndex,
    Await,
    BlockOn,
    Raise,
    Handle,
    Resume,
    Loop,
    Break,
    Continue,
    Nop,
}

/// A compact instruction.
#[derive(Debug)]
pub struct NyarInstruction {
    pub opcode: OpCode,
    pub operands: Vec<usize>,
}

impl NyarInstruction {
    /// An instruction with operands.
    pub fn new(opcode: OpCode, operands: Vec<usize>) -> (r: Self)
        ensures
            r.opcode == opcode,
            r.operands == operands,
    {
        NyarInstruction { opcode, operands }
    }

    /// An instruction without operands.
    pub fn simple(opcode: OpCode) -> (r: Self)
        ensures
            r.opcode == opcode,
            r.operands@ == Seq::<usize>::empty(),
    {
        NyarInstruction { opcode, operands: Vec::new() }
    }
}

/// A block of compact code with what its operands index.
#[derive(Debug)]
pub struct CodeBlock {
    pub instructions: Vec<NyarInstruction>,
    pub constants: Vec<ConstantValue>,
    pub locals: Vec<String>,
}

impl CodeBlock {
    /// An empty block.
    pub fn new() -> (r: Self)
        ensures
            r.instructions@.len() == 0,
            r.constants@.len() == 0,
            r.locals@.len() == 0,
    {
        CodeBlock { instructions: Vec::new(), constants: Vec::new(), locals: Vec::new() }
    }

    /// Appends an instruction.
    pub fn add_instruction(&mut self, instruction: NyarInstruction)
        ensures
            final(self).instructions@ == old(self).instructions@.push(instruction),
            final(self).constants == old(self).constants,
            final(self).locals == old(self).locals,
    {
        self.instructions.push(instruction);
    }

    /// Appends a constant and returns its index in the pool.
    pub fn add_constant(&mut self, value: ConstantValue) -> (r: usize)
        ensures
            r == old(self).constants@.len(),
            final(self).constants@ == old(self).constants@.push(value),
            final(self).instructions == old(self).instructions,
            final(self).locals == old(self).locals,
    {
        self.constants.push(value);
        self.constants.len() - 1
    }

    /// Appends a local variable and returns its index in the table.
    pub fn add_local(&mut self, name: &str) -> (r: usize)
        ensures
            r == old(self).locals@.len(),
            final(self).locals@.len() == old(self).locals@.len() + 1,
            final(self).locals@[r as int]@ == name@,
            forall|i: int| 0 <= i < r ==> final(self).locals@[i] == old(self).locals@[i],
            final(self).instructions == old(self).instructions,
            final(self).constants == old(self).constants,
    {
        self.locals.push(name.to_owned());
        self.locals.len() - 1
    }
}

pub open spec fn missing_operand_text() -> Seq<char> {
    "Missing operand"@
}

pub open spec fn unknown_constant_text() -> Seq<char> {
    "Unknown constant"@
}

pub open spec fn global_name_text() -> Seq<char> {
    "Expected string for global name"@
}

pub open spec fn class_name_text() -> Seq<char> {
    "Expected string for class name"@
}

pub open spec fn property_name_text() -> Seq<char> {
    "Expected string for property name"@
}

pub open spec fn get_property_text() -> Seq<char> {
    "Cannot get property of non-object"@
}

pub open spec fn set_property_text() -> Seq<char> {
    "Cannot set property of non-object"@
}

pub open spec fn unimplemented_text() -> Seq<char> {
    "Unimplemented opcode"@
}

/// The state that compact code acts on: a machine, of which it uses the
/// heap, the value stack, the global scope and the instruction pointer, and
/// the local variables.
pub struct LirView {
    pub vm: VmView,
    pub locals: Seq<usize>,
}

/// A state after an instruction, and whether the instruction failed.
pub type LirOutcome = (LirView, Option<ErrorView>);

impl LirView {
    pub open spec fn with_vm(self, vm: VmView) -> LirView {
        LirView { vm, ..self }
    }

    /// The state with the instruction pointer moved past the instruction.
    pub open spec fn next(self) -> LirView {
        self.with_vm(
            self.vm.with_ip(
                if self.vm.context.instruction_pointer < usize::MAX {
                    (self.vm.context.instruction_pointer + 1) as usize
                } else {
                    self.vm.context.instruction_pointer
                },
            ),
        )
    }

    /// The state after a failure: nothing changed.
    pub open spec fn fail(self, e: ErrorView) -> LirOutcome {
        (self, Some(e))
    }

    /// The state after an instruction that did `vm` to the machine and goes
    /// on with the next instruction.
    pub open spec fn go_on(self, vm: VmView) -> LirOutcome {
        (self.with_vm(vm).next(), None)
    }

    /// `StoreLocal`: the value is popped and stored in the local variable;
    /// the table grows to hold it, and the variables in between are bound
    /// to one new null.
    pub open spec fn store_local(self, index: usize) -> LirOutcome {
        if self.vm.stack().len() < 1 {
            self.fail(ErrorView::StackUnderflow)
        } else {
            let value = self.vm.top(0);
            let popped = self.vm.drop(1);
            if index < self.locals.len() {
                (
                    LirView { vm: popped, locals: self.locals.update(index as int, value) }.next(),
                    None,
                )
            } else {
                let null = popped.heap.next_index();
                (
                    LirView {
                        vm: popped.allocated(ValueView::Null),
                        locals: Seq::new(
                            (index + 1) as nat,
                            |i: int|
                                if i < self.locals.len() {
                                    self.locals[i]
                                } else if i == index {
                                    value
                                } else {
                                    null
                                },
                        ),
                    }.next(),
                    None,
                )
            }
        }
    }

    /// The name that the constant `k` of the pool gives to a global
    /// variable.
    pub open spec fn global_name(constants: Seq<ConstantValue>, k: usize) -> Option<Seq<char>> {
        if k < constants.len() {
            match constants[k as int] {
                ConstantValue::String(s) => Some(s@),
                _ => None,
            }
        } else {
            None
        }
    }

    /// A jump to `target` where the popped condition is the boolean
    /// `wanted`; the next instruction otherwise.
    pub open spec fn jump_on(self, target: usize, wanted: bool) -> LirOutcome {
        if self.vm.stack().len() < 1 {
            self.fail(ErrorView::StackUnderflow)
        } else {
            match self.vm.heap.lookup(self.vm.top(0)) {
                Some(ValueView::Boolean(b)) => if b == wanted {
                    (self.with_vm(self.vm.drop(1).with_ip(target)), None)
                } else {
                    self.go_on(self.vm.drop(1))
                },
                _ => self.go_on(self.vm.drop(1)),
            }
        }
    }

    /// `NewObject`, `GetProperty` and `SetProperty`: the constant `k` names
    /// the class or the property. A new object has no property; a property
    /// that an object lacks reads as a new null; a stored value is pushed
    /// back.
    pub open spec fn object_operation(self, constants: Seq<ConstantValue>, opcode: OpCode, k: usize)
        -> LirOutcome {
        match Self::global_name(constants, k) {
            None => self.fail(
                ErrorView::RuntimeError(
                    if opcode == OpCode::NewObject {
                        class_name_text()
                    } else {
                        property_name_text()
                    },
                ),
            ),
            Some(name) => if opcode == OpCode::NewObject {
                self.go_on(self.vm.alloc_push(ValueView::Object(Seq::empty())))
            } else if opcode == OpCode::GetProperty {
                if self.vm.stack().len() < 1 {
                    self.fail(ErrorView::StackUnderflow)
                } else {
                    match self.vm.heap.lookup(self.vm.top(0)) {
                        Some(ValueView::Object(entries)) => match crate::object::entry_lookup(
                            entries,
                            name,
                        ) {
                            Some(h) => self.go_on(self.vm.drop(1).push(h)),
                            None => self.go_on(self.vm.drop(1).alloc_push(ValueView::Null)),
                        },
                        _ => (
                            self.with_vm(self.vm.drop(1)),
                            Some(ErrorView::RuntimeError(get_property_text())),
                        ),
                    }
                }
            } else {
                if self.vm.stack().len() < 2 {
                    self.fail(ErrorView::StackUnderflow)
                } else {
                    match self.vm.heap.lookup(self.vm.top(1)) {
                        Some(ValueView::Object(entries)) => self.go_on(
                            self.vm.drop(2).with_heap(
                                self.vm.heap.store(
                                    self.vm.top(1),
                                    ValueView::Object(
                                        crate::object::entry_store(entries, name, self.vm.top(0)),
                                    ),
                                ),
                            ).push(self.vm.top(0)),
                        ),
                        _ => (
                            self.with_vm(self.vm.drop(2)),
                            Some(ErrorView::RuntimeError(set_property_text())),
                        ),
                    }
                }
            },
        }
    }

    /// What one compact instruction does.
    pub open spec fn execute(self, constants: Seq<ConstantValue>, opcode: OpCode, operands: Seq<usize>)
        -> LirOutcome {
        match opcode {
            OpCode::Pop => if self.vm.stack().len() < 1 {
                self.fail(ErrorView::StackUnderflow)
            } else {
                self.go_on(self.vm.drop(1))
            },
            OpCode::Dup => if self.vm.stack().len() < 1 {
                self.fail(ErrorView::StackUnderflow)
            } else {
                self.go_on(self.vm.push(self.vm.top(0)))
            },
            OpCode::Swap => if self.vm.stack().len() < 2 {
                self.fail(ErrorView::StackUnderflow)
            } else {
                self.go_on(self.vm.drop(2).push(self.vm.top(0)).push(self.vm.top(1)))
            },
            OpCode::Nop => self.go_on(self.vm),
            OpCode::Await | OpCode::BlockOn => if self.vm.stack().len() < 1 {
                self.fail(ErrorView::StackUnderflow)
            } else {
                self.go_on(self.vm.drop(1).alloc_push(ValueView::Null))
            },
            OpCode::NewObject | OpCode::GetProperty | OpCode::SetProperty => if operands.len() < 1 {
                self.fail(ErrorView::RuntimeError(missing_operand_text()))
            } else {
                self.object_operation(constants, opcode, operands[0])
            },
            OpCode::Push | OpCode::LoadLocal | OpCode::StoreLocal | OpCode::LoadGlobal
            | OpCode::StoreGlobal | OpCode::Jump | OpCode::JumpIf | OpCode::JumpIfNot => if operands.len()
                < 1 {
                self.fail(ErrorView::RuntimeError(missing_operand_text()))
            } else {
                let k = operands[0];
                match opcode {
                    OpCode::Push => if k < constants.len() {
                        self.go_on(self.vm.push_constant(constants[k as int]).0)
                    } else {
                        self.fail(ErrorView::RuntimeError(unknown_constant_text()))
                    },
                    OpCode::LoadLocal => if k < self.locals.len() {
                        self.go_on(self.vm.push(self.locals[k as int]))
                    } else {
                        self.fail(
                            ErrorView::IndexOutOfBounds {
                                index: k,
                                length: self.locals.len() as usize,
                            },
                        )
                    },
                    OpCode::StoreLocal => self.store_local(k),
                    OpCode::LoadGlobal => match Self::global_name(constants, k) {
                        Some(name) => match scope_get(self.vm.heap, self.vm.globals, name) {
                            Some(h) => self.go_on(self.vm.push(h)),
                            None => self.go_on(self.vm.alloc_push(ValueView::Null)),
                        },
                        None => self.fail(ErrorView::RuntimeError(global_name_text())),
                    },
                    OpCode::StoreGlobal => match Self::global_name(constants, k) {
                        Some(name) => if self.vm.stack().len() < 1 {
                            self.fail(ErrorView::StackUnderflow)
                        } else {
                            self.go_on(self.vm.drop(1).set_global(name, self.vm.top(0)))
                        },
                        None => self.fail(ErrorView::RuntimeError(global_name_text())),
                    },
                    OpCode::Jump => (self.with_vm(self.vm.with_ip(k)), None),
                    OpCode::JumpIf => self.jump_on(k, true),
                    _ => self.jump_on(k, false),
                }
            },
            _ => self.fail(ErrorView::RuntimeError(unimplemented_text())),
        }
    }
}

/// An interpreter for compact code.
#[derive(Debug)]
pub struct Interpreter {
    /// The machine whose heap, stack and globals the code acts on.
    pub vm: VirtualMachine,
    /// The handles of the local variables.
    pub locals: Vec<usize>,
}

impl View for Interpreter {
    type V = LirView;

    open spec fn view(&self) -> LirView {
        LirView { vm: self.vm@, locals: self.locals@ }
    }
}

/// The error of an instruction, as the contracts state it.
pub open spec fn failure_view(r: Result<(), VmError>) -> Option<ErrorView> {
    match r {
        Ok(_) => None,
        Err(e) => Some(e@),
    }
}

impl Interpreter {
    /// An interpreter with a new machine and no local variable.
    pub fn new() -> (r: Self)
        ensures
            r.vm.wf(),
            r@ == (LirView { vm: VmView::fresh(), locals: Seq::empty() }),
    {
        Interpreter { vm: VirtualMachine::new(), locals: Vec::new() }
    }

    /// Binds a global variable of the machine.
    pub fn set_global(&mut self, name: &str, value: Gc<Value>)
        ensures
            old(self).vm.wf() ==> final(self).vm.wf(),
            final(self)@ == old(self)@.with_vm(old(self).vm@.set_global(name@, value.index)),
    {
        self.vm.set_global(name, value);
    }

    /// The handle that a global variable of the machine is bound to.
    pub fn get_global(&self, name: &str) -> (r: Option<Gc<Value>>)
        ensures
            match r {
                Some(g) => scope_get(self.vm@.heap, self.vm@.globals, name@) == Some(g.index),
                None => scope_get(self.vm@.heap, self.vm@.globals, name@).is_none(),
            },
    {
        self.vm.get_global(name)
    }

    fn go_on(&mut self)
        ensures
            old(self).vm.wf() ==> final(self).vm.wf(),
            final(self).vm.same_frame(&old(self).vm),
            final(self)@ == old(self)@.next(),
    {
        if self.vm.context.instruction_pointer < usize::MAX {
            self.vm.context.instruction_pointer = self.vm.context.instruction_pointer + 1;
        }
    }

    fn jump_on(&mut self, target: usize, wanted: bool) -> (r: Result<(), VmError>)
        ensures
            old(self).vm.wf() ==> final(self).vm.wf(),
            final(self).vm.same_frame(&old(self).vm),
            (final(self)@, failure_view(r)) == old(self)@.jump_on(target, wanted),
    {
        let n = self.vm.context.value_stack.len();
        if n < 1 {
            return Err(VmError::StackUnderflow);
        }
        let condition = self.vm.context.value_stack[n - 1];
        let taken = match self.vm.heap.get_value(condition) {
            Some(Value::Boolean(b)) => *b == wanted,
            _ => false,
        };
        self.vm.drop_values(1);
        if taken {
            self.vm.context.instruction_pointer = target;
        } else {
            self.go_on();
        }
        Ok(())
    }

    fn store_local(&mut self, index: usize) -> (r: Result<(), VmError>)
        requires
            old(self).vm.wf(),
        ensures
            final(self).vm.wf(),
            final(self).vm.same_frame(&old(self).vm),
            (final(self)@, failure_view(r)) == old(self)@.store_local(index),
    {
        let n = self.vm.context.value_stack.len();
        if n < 1 {
            return Err(VmError::StackUnderflow);
        }
        let value = self.vm.context.value_stack[n - 1];
        self.vm.drop_values(1);
        if index < self.locals.len() {
            self.locals.set(index, value);
        } else {
            let null = self.vm.allocate_cell(Value::Null);
            let ghost machine = self.vm;
            while self.locals.len() < index
                invariant
                    old(self).locals@.len() <= self.locals@.len() <= index,
                    self.vm == machine,
                    forall|i: int|
                        0 <= i < old(self).locals@.len() ==> self.locals@[i] == old(self).locals@[i],
                    forall|i: int|
                        old(self).locals@.len() <= i < self.locals@.len() ==> self.locals@[i]
                            == null,
                decreases index - self.locals@.len(),
            {
                self.locals.push(null);
            }
            self.locals.push(value);
            assert(self.locals@ =~= old(self)@.store_local(index).0.locals);
        }
        self.go_on();
        Ok(())
    }

    fn object_operation(&mut self, constants: &Vec<ConstantValue>, opcode: OpCode, k: usize) -> (r:
        Result<(), VmError>)
        requires
            old(self).vm.wf(),
            opcode == OpCode::NewObject || opcode == OpCode::GetProperty || opcode
                == OpCode::SetProperty,
        ensures
            final(self).vm.wf(),
            final(self).vm.same_frame(&old(self).vm),
            (final(self)@, failure_view(r)) == old(self)@.object_operation(constants@, opcode, k),
    {
        let name: Option<&String> = if k < constants.len() {
            match &constants[k] {
                ConstantValue::String(s) => Some(s),
                _ => None,
            }
        } else {
            None
        };
        let name = match name {
            Some(s) => s,
            None => {
                return match opcode {
                    OpCode::NewObject => Err(
                        VmError::RuntimeError("Expected string for class name".to_owned()),
                    ),
                    _ => Err(VmError::RuntimeError("Expected string for property name".to_owned())),
                };
            },
        };
        match opcode {
            OpCode::NewObject => {
                let h = self.vm.allocate_cell(Value::Object(crate::object::NyarObject::new()));
                self.vm.context.value_stack.push(h);
                self.go_on();
                Ok(())
            },
            OpCode::GetProperty => {
                let n = self.vm.context.value_stack.len();
                if n < 1 {
                    return Err(VmError::StackUnderflow);
                }
                let target = self.vm.context.value_stack[n - 1];
                let found = match self.vm.heap.get_value(target) {
                    Some(Value::Object(object)) => Some(object.get(name.as_str())),
                    _ => None,
                };
                self.vm.drop_values(1);
                match found {
                    None => Err(
                        VmError::RuntimeError("Cannot get property of non-object".to_owned()),
                    ),
                    Some(Some(h)) => {
                        self.vm.context.value_stack.push(h);
                        self.go_on();
                        Ok(())
                    },
                    Some(None) => {
                        let null = self.vm.allocate_cell(Value::Null);
                        self.vm.context.value_stack.push(null);
                        self.go_on();
                        Ok(())
                    },
                }
            },
            _ => {
                let n = self.vm.context.value_stack.len();
                if n < 2 {
                    return Err(VmError::StackUnderflow);
                }
                let value = self.vm.context.value_stack[n - 1];
                let target = self.vm.context.value_stack[n - 2];
                let is_object = match self.vm.heap.get_value(target) {
                    Some(Value::Object(_)) => true,
                    _ => false,
                };
                self.vm.drop_values(2);
                if !is_object {
                    return Err(
                        VmError::RuntimeError("Cannot set property of non-object".to_owned()),
                    );
                }
                match self.vm.heap.view_mut(Gc::<Value>::new(target)) {
                    Ok(Value::Object(object)) => {
                        object.insert(name.clone(), value);
                    },
                    _ => {
                        proof {
                            assert(false);
                        }
                    },
                }
                self.vm.context.value_stack.push(value);
                self.go_on();
                Ok(())
            },
        }
    }

    /// Executes one compact instruction with the pool `constants`.
    pub fn execute_instruction(
        &mut self,
        constants: &Vec<ConstantValue>,
        instruction: &NyarInstruction,
    ) -> (r: Result<(), VmError>)
        requires
            old(self).vm.wf(),
        ensures
            final(self).vm.wf(),
            final(self).vm.same_frame(&old(self).vm),
            (final(self)@, failure_view(r)) == old(self)@.execute(
                constants@,
                instruction.opcode,
                instruction.operands@,
            ),
    {
        match instruction.opcode {
            OpCode::Pop => {
                match self.vm.pop() {
                    Err(e) => {
                        return Err(e);
                    },
                    Ok(_) => {},
                }
                self.go_on();
                Ok(())
            },
            OpCode::Dup => {
                match self.vm.dup() {
                    Err(e) => {
                        return Err(e);
                    },
                    Ok(_) => {},
                }
                self.go_on();
                Ok(())
            },
            OpCode::Swap => {
                match self.vm.swap() {
                    Err(e) => {
                        return Err(e);
                    },
                    Ok(_) => {},
                }
                self.go_on();
                Ok(())
            },
            OpCode::Nop => {
                self.go_on();
                Ok(())
            },
            OpCode::Await | OpCode::BlockOn => {
                match self.vm.pop() {
                    Err(e) => {
                        return Err(e);
                    },
                    Ok(_) => {},
                }
                let null = self.vm.allocate_cell(Value::Null);
                self.vm.context.value_stack.push(null);
                self.go_on();
                Ok(())
            },
            OpCode::NewObject | OpCode::GetProperty | OpCode::SetProperty => {
                if instruction.operands.len() < 1 {
                    return Err(VmError::RuntimeError("Missing operand".to_owned()));
                }
                self.object_operation(constants, instruction.opcode, instruction.operands[0])
            },
            OpCode::Push | OpCode::LoadLocal | OpCode::StoreLocal | OpCode::LoadGlobal
            | OpCode::StoreGlobal | OpCode::Jump | OpCode::JumpIf | OpCode::JumpIfNot => {
                if instruction.operands.len() < 1 {
                    return Err(VmError::RuntimeError("Missing operand".to_owned()));
                }
                let k = instruction.operands[0];
                match instruction.opcode {
                    OpCode::Push => {
                        if k >= constants.len() {
                            return Err(VmError::RuntimeError("Unknown constant".to_owned()));
                        }
                        let _ = self.vm.push_constant(&constants[k]);
                        self.go_on();
                        Ok(())
                    },
                    OpCode::LoadLocal => {
                        if k >= self.locals.len() {
                            return Err(
                                VmError::IndexOutOfBounds { index: k, length: self.locals.len() },
                            );
                        }
                        self.vm.context.value_stack.push(self.locals[k]);
                        self.go_on();
                        Ok(())
                    },
                    OpCode::StoreLocal => self.store_local(k),
                    OpCode::LoadGlobal => {
                        let found = if k < constants.len() {
                            match &constants[k] {
                                ConstantValue::String(s) => Some(
                                    self.vm.scope_lookup(self.vm.globals, s.as_str()),
                                ),
                                _ => None,
                            }
                        } else {
                            None
                        };
                        match found {
                            None => Err(
                                VmError::RuntimeError("Expected string for global name".to_owned()),
                            ),
                            Some(Some(h)) => {
                                self.vm.context.value_stack.push(h);
                                self.go_on();
                                Ok(())
                            },
                            Some(None) => {
                                let null = self.vm.allocate_cell(Value::Null);
                                self.vm.context.value_stack.push(null);
                                self.go_on();
                                Ok(())
                            },
                        }
                    },
                    OpCode::StoreGlobal => {
                        if k >= constants.len() {
                            return Err(
                                VmError::RuntimeError("Expected string for global name".to_owned()),
                            );
                        }
                        match &constants[k] {
                            ConstantValue::String(s) => {
                                let n = self.vm.context.value_stack.len();
                                if n < 1 {
                                    return Err(VmError::StackUnderflow);
                                }
                                let value = self.vm.context.value_stack[n - 1];
                                self.vm.drop_values(1);
                                self.vm.set_global(s.as_str(), Gc::new(value));
                                self.go_on();
                                Ok(())
                            },
                            _ => Err(
                                VmError::RuntimeError("Expected string for global name".to_owned()),
                            ),
                        }
                    },
                    OpCode::Jump => {
                        self.vm.context.instruction_pointer = k;
                        Ok(())
                    },
                    OpCode::JumpIf => self.jump_on(k, true),
                    _ => self.jump_on(k, false),
                }
            },
            _ => Err(VmError::RuntimeError("Unimplemented opcode".to_owned())),
        }
    }
}

/// The operation and the operands of each instruction.
pub open spec fn code_view(code: Seq<NyarInstruction>) -> Seq<(OpCode, Seq<usize>)> {
    Seq::new(code.len(), |i: int| (code[i].opcode, code[i].operands@))
}

impl LirView {
    /// The state after running compact code for at most `fuel`
    /// instructions from the instruction pointer, and how the run ended:
    /// with the value that a `Return` popped, with nothing where the
    /// instruction pointer left the code, or with an error.
    pub open spec fn run(
        self,
        constants: Seq<ConstantValue>,
        code: Seq<(OpCode, Seq<usize>)>,
        fuel: nat,
    ) -> (LirView, Result<Option<usize>, ErrorView>)
        decreases fuel,
    {
        let ip = self.vm.context.instruction_pointer;
        if ip >= code.len() {
            (self, Ok(None))
        } else if fuel == 0 {
            (self, Err(ErrorView::RuntimeError(crate::machine::step_limit_text())))
        } else if code[ip as int].0 == OpCode::Return {
            if self.vm.stack().len() < 1 {
                (self, Err(ErrorView::StackUnderflow))
            } else {
                (self.with_vm(self.vm.drop(1)), Ok(Some(self.vm.top(0))))
            }
        } else {
            let (after, failure) = self.execute(constants, code[ip as int].0, code[ip as int].1);
            match failure {
                Some(e) => (after, Err(e)),
                None => after.run(constants, code, (fuel - 1) as nat),
            }
        }
    }

    /// The state after a run that ended as `outcome`, and the handle that
    /// `execute` returns: the returned value, or the top of the stack,
    /// popped, or a new null where the stack is empty.
    pub open spec fn concluded(self, outcome: Result<Option<usize>, ErrorView>) -> (
        LirView,
        Result<usize, ErrorView>,
    ) {
        match outcome {
            Err(e) => (self, Err(e)),
            Ok(Some(v)) => (self, Ok(v)),
            Ok(None) => if self.vm.stack().len() > 0 {
                (self.with_vm(self.vm.drop(1)), Ok(self.vm.top(0)))
            } else {
                (
                    self.with_vm(self.vm.allocated(ValueView::Null)),
                    Ok(self.vm.heap.next_index()),
                )
            },
        }
    }
}

impl Interpreter {
    /// Runs compact code from the instruction pointer.
    fn run(&mut self, block: &CodeBlock) -> (r: Result<Option<usize>, VmError>)
        requires
            old(self).vm.wf(),
        ensures
            final(self).vm.wf(),
            final(self).vm.same_frame(&old(self).vm),
            (final(self)@, crate::machine::run_view(r)) == old(self)@.run(
                block.constants@,
                code_view(block.instructions@),
                old(self).vm.step_limit as nat,
            ),
    {
        let ghost start = self@;
        let ghost code = code_view(block.instructions@);
        let ghost limit = self.vm.step_limit as nat;
        let n = block.instructions.len();
        let mut fuel = self.vm.step_limit;
        let mut outcome: Result<Option<usize>, VmError> = Ok(None);
        loop
            invariant_except_break
                start.run(block.constants@, code, limit) == self@.run(
                    block.constants@,
                    code,
                    fuel as nat,
                ),
            invariant
                self.vm.wf(),
                self.vm.same_frame(&old(self).vm),
                n == block.instructions@.len(),
                code == code_view(block.instructions@),
            ensures
                self.vm.wf(),
                self.vm.same_frame(&old(self).vm),
                (self@, crate::machine::run_view(outcome)) == start.run(
                    block.constants@,
                    code,
                    limit,
                ),
            decreases fuel,
        {
            let ip = self.vm.context.instruction_pointer;
            if ip >= n {
                outcome = Ok(None);
                break ;
            }
            if fuel == 0 {
                outcome = Err(VmError::RuntimeError("Step limit reached".to_owned()));
                break ;
            }
            let instruction = &block.instructions[ip];
            match instruction.opcode {
                OpCode::Return => {
                    let depth = self.vm.context.value_stack.len();
                    if depth < 1 {
                        outcome = Err(VmError::StackUnderflow);
                    } else {
                        let value = self.vm.context.value_stack[depth - 1];
                        self.vm.drop_values(1);
                        outcome = Ok(Some(value));
                    }
                    break ;
                },
                _ => {},
            }
            match self.execute_instruction(&block.constants, instruction) {
                Err(e) => {
                    outcome = Err(e);
                    break ;
                },
                Ok(_) => {},
            }
            fuel = fuel - 1;
        }
        outcome
    }

    /// Executes a block of compact code from its first instruction and
    /// returns the handle of its result. At most `step_limit` instructions
    /// of the machine are run.
    pub fn execute(&mut self, block: &CodeBlock) -> (r: Result<Gc<Value>, VmError>)
        requires
            old(self).vm.wf(),
        ensures
            final(self).vm.wf(),
            final(self).vm.same_frame(&old(self).vm),
            ({
                let begun = old(self)@.with_vm(old(self)@.vm.with_ip(0));
                let (after, outcome) = begun.run(
                    block.constants@,
                    code_view(block.instructions@),
                    old(self).vm.step_limit as nat,
                );
                (final(self)@, crate::machine::handle_view(r)) == after.concluded(outcome)
            }),
    {
        self.vm.context.instruction_pointer = 0;
        match self.run(block) {
            Err(e) => Err(e),
            Ok(Some(v)) => Ok(Gc::new(v)),
            Ok(None) => {
                let depth = self.vm.context.value_stack.len();
                if depth > 0 {
                    let top = self.vm.context.value_stack[depth - 1];
                    self.vm.drop_values(1);
                    Ok(Gc::new(top))
                } else {
                    Ok(Gc::new(self.vm.allocate_cell(Value::Null)))
                }
            },
        }
    }
}

impl LirView {
    /// The state after a compacting collection in which the local
    /// variables count as roots beside the handles of the machine: the
    /// machine is collected with the locals on top of its stack, and the
    /// locals are taken off again.
    pub open spec fn collected(self) -> LirView {
        let after = self.vm.with_stack(self.vm.stack() + self.locals).collected();
        LirView {
            vm: after.with_stack(after.stack().subrange(0, self.vm.stack().len() as int)),
            locals: after.stack().subrange(
                self.vm.stack().len() as int,
                (self.vm.stack().len() + self.locals.len()) as int,
            ),
        }
    }
}

impl Interpreter {
    /// Runs a compacting collection that keeps what the local variables
    /// name, and rewrites the locals with the handles of the machine.
    pub fn collect(&mut self) -> (r: Forwarding)
        requires
            old(self).vm.wf(),
        ensures
            final(self).vm.wf(),
            final(self).vm.same_frame(&old(self).vm),
            final(self)@ == old(self)@.collected(),
            r@ == old(self)@.vm.with_stack(old(self)@.vm.stack() + old(self)@.locals).heap.forwarding(
                old(self)@.vm.with_stack(old(self)@.vm.stack() + old(self)@.locals).roots(),
            ),
    {
        let depth = self.vm.context.value_stack.len();
        let count = self.locals.len();
        crate::context::append_handles(&mut self.vm.context.value_stack, &self.locals);
        let forwarding = self.vm.collect();
        let ghost after = self.vm@;
        let total = self.vm.context.value_stack.len();
        let mut locals: Vec<usize> = Vec::new();
        let mut i: usize = 0;
        while i < count
            invariant
                i <= count,
                total == depth + count,
                self.vm.context.value_stack@.len() == total,
                after == self.vm@,
                locals@ == after.stack().subrange(depth as int, depth + i),
            decreases count - i,
        {
            locals.push(self.vm.context.value_stack[depth + i]);
            assert(after.stack().subrange(depth as int, depth + i + 1) == after.stack().subrange(
                depth as int,
                depth + i,
            ).push(after.stack()[depth + i]));
            i = i + 1;
        }
        self.vm.context.value_stack.truncate(depth);
        self.locals = locals;
        forwarding
    }
}

} // verus!
