//! Lowering of the front end's tree to compact code.

use crate::error::NyarErrorKind;
use crate::instruction::ConstantValue;
use crate::lir::{code_view, CodeBlock, NyarInstruction, OpCode};
use crate::object::{entry_lookup, entry_store, NyarObject};
use crate::value::{integer_from, integer_of};
use vstd::prelude::*;

verus! {

/// A literal of the source language.
#[derive(Debug)]
pub enum LiteralValue {
    Null,
    Boolean(bool),
    Integer(i64),
    String(String),
}

/// A binary operator of the source language.
#[derive(Debug, Clone, Copy, PartialEq, Eq, Structural)]
pub enum BinaryOperator {
    Add,
    Sub,
    Mul,
    Div,
    Mod,
    Eq,
    NotEq,
    Lt,
    LtEq,
    Gt,
    GtEq,
    And,
    Or,
}

/// The operation that computes a binary operator.
pub open spec fn operator_opcode(op: BinaryOperator) -> OpCode {
    match op {
        BinaryOperator::Add => OpCode::Add,
        BinaryOperator::Sub => OpCode::Sub,
        BinaryOperator::Mul => OpCode::Mul,
        BinaryOperator::Div => OpCode::Div,
        BinaryOperator::Mod => OpCode::Mod,
        BinaryOperator::Eq => OpCode::Equal,
        BinaryOperator::NotEq => OpCode::NotEqual,
        BinaryOperator::Lt => OpCode::Less,
        BinaryOperator::LtEq => OpCode::LessEqual,
        BinaryOperator::Gt => OpCode::Greater,
        BinaryOperator::GtEq => OpCode::GreaterEqual,
        BinaryOperator::And => OpCode::And,
        BinaryOperator::Or => OpCode::Or,
    }
}

impl BinaryOperator {
    /// The operation that computes the operator.
    pub fn opcode(&self) -> (r: OpCode)
        ensures
            r == operator_opcode(*self),
    {
        match self {
            BinaryOperator::Add => OpCode::Add,
            BinaryOperator::Sub => OpCode::Sub,
            BinaryOperator::Mul => OpCode::Mul,
            BinaryOperator::Div => OpCode::Div,
            BinaryOperator::Mod => OpCode::Mod,
            BinaryOperator::Eq => OpCode::Equal,
            BinaryOperator::NotEq => OpCode::NotEqual,
            BinaryOperator::Lt => OpCode::Less,
            BinaryOperator::LtEq => OpCode::LessEqual,
            BinaryOperator::Gt => OpCode::Greater,
            BinaryOperator::GtEq => OpCode::GreaterEqual,
            BinaryOperator::And => OpCode::And,
            BinaryOperator::Or => OpCode::Or,
        }
    }
}

impl LiteralValue {
    /// The constant that the literal stands for.
    pub fn constant(&self) -> (r: ConstantValue)
        ensures
            r == constant_of(*self),
    {
        match self {
            LiteralValue::Null => ConstantValue::Null,
            LiteralValue::Boolean(b) => ConstantValue::Boolean(*b),
            LiteralValue::Integer(n) => ConstantValue::Integer(integer_from(*n)),
            LiteralValue::String(s) => ConstantValue::String(s.clone()),
        }
    }
}

/// A variant of an enum in the tree.
#[derive(Debug)]
pub struct EnumVariant {
    pub name: String,
    pub fields: Vec<String>,
}

/// A node of the tree that the compiler lowers.
#[derive(Debug)]
pub enum HirNode {
    Literal(LiteralValue),
    VarDeclaration { name: String, initializer: Box<HirNode> },
    VarReference(String),
    BinaryOp { op: BinaryOperator, left: Box<HirNode>, right: Box<HirNode> },
    FunctionDeclaration { name: String, params: Vec<String>, body: Vec<HirNode> },
    FunctionCall { callee: Box<HirNode>, args: Vec<HirNode> },
    IfStatement { condition: Box<HirNode>, then_branch: Vec<HirNode>, else_branch: Option<
        Vec<HirNode>,
    > },
    LoopStatement { body: Vec<HirNode> },
    ReturnStatement { value: Option<Box<HirNode>> },
    ClassDeclaration { name: String, methods: Vec<HirNode> },
    TraitDeclaration { name: String, methods: Vec<HirNode> },
    EnumDeclaration { name: String, variants: Vec<EnumVariant> },
}

/// A tree: its nodes in order.
#[derive(Debug)]
pub struct Hir {
    pub nodes: Vec<HirNode>,
}

/// What the compiler has produced so far.
pub struct CompilerView {
    /// The pool of constants.
    pub constants: Seq<ConstantValue>,
    /// The index of each local variable.
    pub locals: Seq<(Seq<char>, usize)>,
    /// The operation and the operands of each instruction.
    pub code: Seq<(OpCode, Seq<usize>)>,
}

/// The constant of a literal.
pub open spec fn constant_of(literal: LiteralValue) -> ConstantValue {
    match literal {
        LiteralValue::Null => ConstantValue::Null,
        LiteralValue::Boolean(b) => ConstantValue::Boolean(b),
        LiteralValue::Integer(n) => ConstantValue::Integer(integer_of(n)),
        LiteralValue::String(s) => ConstantValue::String(s),
    }
}

/// The locals of a function: each parameter at its place.
pub open spec fn parameter_locals(params: Seq<String>, n: nat) -> Seq<(Seq<char>, usize)>
    decreases n,
{
    if n == 0 || n > params.len() {
        Seq::empty()
    } else {
        entry_store(parameter_locals(params, (n - 1) as nat), params[n - 1]@, (n - 1) as usize)
    }
}

impl CompilerView {
    /// The state with one more instruction.
    pub open spec fn emit(self, opcode: OpCode, operands: Seq<usize>) -> CompilerView {
        CompilerView { code: self.code.push((opcode, operands)), ..self }
    }

    /// The state with one more constant; its index is the length of the
    /// pool before.
    pub open spec fn constant(self, value: ConstantValue) -> CompilerView {
        CompilerView { constants: self.constants.push(value), ..self }
    }

    /// The state after a constant was added and an instruction emitted
    /// whose operand is the index of that constant.
    pub open spec fn emit_with_constant(self, opcode: OpCode, value: ConstantValue) -> CompilerView {
        self.constant(value).emit(opcode, seq![self.constants.len() as usize])
    }

    /// The state after the first `n` nodes were compiled in order.
    pub open spec fn nodes(self, nodes: Seq<HirNode>, n: nat) -> CompilerView
        decreases nodes, n,
    {
        if n == 0 || n > nodes.len() {
            self
        } else {
            self.nodes(nodes, (n - 1) as nat).node(nodes[n - 1])
        }
    }

    /// The state after the last `n` nodes were compiled, the last one
    /// first.
    pub open spec fn nodes_reversed(self, nodes: Seq<HirNode>, n: nat) -> CompilerView
        decreases nodes, n,
    {
        if n == 0 || n > nodes.len() {
            self
        } else {
            self.nodes_reversed(nodes, (n - 1) as nat).node(nodes[nodes.len() - n])
        }
    }

    /// The state after the first `n` members of a class were compiled:
    /// each function among them is compiled and stored as a property of
    /// its name; other members are passed over.
    pub open spec fn methods(self, members: Seq<HirNode>, n: nat) -> CompilerView
        decreases members, n,
    {
        if n == 0 || n > members.len() {
            self
        } else {
            let before = self.methods(members, (n - 1) as nat);
            match members[n - 1] {
                HirNode::FunctionDeclaration { name, params, body } => before.node(
                    members[n - 1],
                ).emit_with_constant(OpCode::SetProperty, ConstantValue::String(name)),
                _ => before,
            }
        }
    }

    /// The state after a node was compiled.
    pub open spec fn node(self, node: HirNode) -> CompilerView
        decreases node,
    {
        match node {
            HirNode::Literal(literal) => self.emit_with_constant(OpCode::Push, constant_of(literal)),
            HirNode::VarDeclaration { name, initializer } => {
                let after = self.node(*initializer);
                CompilerView {
                    locals: entry_store(after.locals, name@, after.locals.len() as usize),
                    ..after
                }.emit(OpCode::StoreLocal, seq![after.locals.len() as usize])
            },
            HirNode::VarReference(name) => match entry_lookup(self.locals, name@) {
                Some(index) => self.emit(OpCode::LoadLocal, seq![index]),
                None => self.emit_with_constant(OpCode::LoadGlobal, ConstantValue::String(name)),
            },
            HirNode::BinaryOp { op, left, right } => self.node(*left).node(*right).emit(
                operator_opcode(op),
                Seq::empty(),
            ),
            HirNode::FunctionDeclaration { name, params, body } => {
                let inside = CompilerView {
                    constants: self.constants,
                    locals: parameter_locals(params@, params@.len()),
                    code: Seq::empty(),
                }.nodes(body@, body@.len());
                CompilerView {
                    constants: inside.constants,
                    ..self
                }.emit_with_constant(OpCode::Push, ConstantValue::Null).emit_with_constant(
                    OpCode::StoreGlobal,
                    ConstantValue::String(name),
                )
            },
            HirNode::FunctionCall { callee, args } => self.nodes_reversed(
                args@,
                args@.len(),
            ).node(*callee).emit(OpCode::Call, seq![args@.len() as usize]),
            HirNode::IfStatement { condition, then_branch, else_branch } => {
                let tested = self.node(*condition);
                let branch = tested.code.len();
                let then_done = tested.emit(OpCode::JumpIfNot, seq![0usize]).nodes(
                    then_branch@,
                    then_branch@.len(),
                );
                match else_branch {
                    Some(otherwise) => {
                        let skip = then_done.code.len();
                        let jumped = then_done.emit(OpCode::Jump, seq![0usize]);
                        let patched = CompilerView {
                            code: jumped.code.update(
                                branch as int,
                                (OpCode::JumpIfNot, seq![jumped.code.len() as usize]),
                            ),
                            ..jumped
                        };
                        let else_done = patched.nodes(otherwise@, otherwise@.len());
                        CompilerView {
                            code: else_done.code.update(
                                skip as int,
                                (OpCode::Jump, seq![else_done.code.len() as usize]),
                            ),
                            ..else_done
                        }
                    },
                    None => CompilerView {
                        code: then_done.code.update(
                            branch as int,
                            (OpCode::JumpIfNot, seq![then_done.code.len() as usize]),
                        ),
                        ..then_done
                    },
                }
            },
            HirNode::LoopStatement { body } => self.emit(OpCode::Loop, Seq::empty()).nodes(
                body@,
                body@.len(),
            ).emit(OpCode::Jump, seq![self.code.len() as usize]),
            HirNode::ReturnStatement { value } => match value {
                Some(v) => self.node(*v).emit(OpCode::Return, Seq::empty()),
                None => self.emit_with_constant(OpCode::Push, ConstantValue::Null).emit(
                    OpCode::Return,
                    Seq::empty(),
                ),
            },
            HirNode::ClassDeclaration { name, methods } => self.emit_with_constant(
                OpCode::NewObject,
                ConstantValue::String(name),
            ).methods(methods@, methods@.len()).emit_with_constant(
                OpCode::StoreGlobal,
                ConstantValue::String(name),
            ),
            HirNode::TraitDeclaration { name, methods } => self,
            HirNode::EnumDeclaration { name, variants } => self,
        }
    }

    /// Compiling a node adds instructions and constants and removes none.
    pub proof fn lemma_node_grows(self, node: HirNode)
        ensures
            self.node(node).code.len() >= self.code.len(),
            self.node(node).constants.len() >= self.constants.len(),
        decreases node,
    {
        match node {
            HirNode::VarDeclaration { name, initializer } => {
                self.lemma_node_grows(*initializer);
            },
            HirNode::BinaryOp { op, left, right } => {
                self.lemma_node_grows(*left);
                self.node(*left).lemma_node_grows(*right);
            },
            HirNode::FunctionDeclaration { name, params, body } => {
                (CompilerView {
                    constants: self.constants,
                    locals: parameter_locals(params@, params@.len()),
                    code: Seq::empty(),
                }).lemma_nodes_grow(body@, body@.len());
            },
            HirNode::FunctionCall { callee, args } => {
                self.lemma_reversed_grow(args@, args@.len());
                self.nodes_reversed(args@, args@.len()).lemma_node_grows(*callee);
            },
            HirNode::IfStatement { condition, then_branch, else_branch } => {
                self.lemma_node_grows(*condition);
                let tested = self.node(*condition);
                let begun = tested.emit(OpCode::JumpIfNot, seq![0usize]);
                begun.lemma_nodes_grow(then_branch@, then_branch@.len());
                let then_done = begun.nodes(then_branch@, then_branch@.len());
                match else_branch {
                    Some(otherwise) => {
                        let jumped = then_done.emit(OpCode::Jump, seq![0usize]);
                        let patched = CompilerView {
                            code: jumped.code.update(
                                tested.code.len() as int,
                                (OpCode::JumpIfNot, seq![jumped.code.len() as usize]),
                            ),
                            ..jumped
                        };
                        patched.lemma_nodes_grow(otherwise@, otherwise@.len());
                    },
                    None => {},
                }
            },
            HirNode::LoopStatement { body } => {
                self.emit(OpCode::Loop, Seq::empty()).lemma_nodes_grow(body@, body@.len());
            },
            HirNode::ReturnStatement { value } => match value {
                Some(v) => {
                    self.lemma_node_grows(*v);
                },
                None => {},
            },
            HirNode::ClassDeclaration { name, methods } => {
                self.emit_with_constant(
                    OpCode::NewObject,
                    ConstantValue::String(name),
                ).lemma_methods_grow(methods@, methods@.len());
            },
            _ => {},
        }
    }

    /// Compiling nodes in order adds and removes nothing.
    pub proof fn lemma_nodes_grow(self, nodes: Seq<HirNode>, n: nat)
        ensures
            self.nodes(nodes, n).code.len() >= self.code.len(),
            self.nodes(nodes, n).constants.len() >= self.constants.len(),
        decreases nodes, n,
    {
        if n > 0 && n <= nodes.len() {
            self.lemma_nodes_grow(nodes, (n - 1) as nat);
            self.nodes(nodes, (n - 1) as nat).lemma_node_grows(nodes[n - 1]);
        }
    }

    /// Compiling nodes in reverse adds and removes nothing.
    pub proof fn lemma_reversed_grow(self, nodes: Seq<HirNode>, n: nat)
        ensures
            self.nodes_reversed(nodes, n).code.len() >= self.code.len(),
            self.nodes_reversed(nodes, n).constants.len() >= self.constants.len(),
        decreases nodes, n,
    {
        if n > 0 && n <= nodes.len() {
            self.lemma_reversed_grow(nodes, (n - 1) as nat);
            self.nodes_reversed(nodes, (n - 1) as nat).lemma_node_grows(nodes[nodes.len() - n]);
        }
    }

    /// Compiling the members of a class adds and removes nothing.
    pub proof fn lemma_methods_grow(self, members: Seq<HirNode>, n: nat)
        ensures
            self.methods(members, n).code.len() >= self.code.len(),
            self.methods(members, n).constants.len() >= self.constants.len(),
        decreases members, n,
    {
        if n > 0 && n <= members.len() {
            self.lemma_methods_grow(members, (n - 1) as nat);
            self.methods(members, (n - 1) as nat).lemma_node_grows(members[n - 1]);
        }
    }
}

/// A compiler from the tree to compact code.
#[derive(Debug)]
pub struct Compiler {
    constants: Vec<ConstantValue>,
    locals: NyarObject,
    instructions: Vec<NyarInstruction>,
}

impl View for Compiler {
    type V = CompilerView;

    closed spec fn view(&self) -> CompilerView {
        CompilerView {
            constants: self.constants@,
            locals: self.locals@,
            code: code_view(self.instructions@),
        }
    }
}

pub open spec fn parser_text() -> Seq<char> {
    "解析器尚未实现"@
}

impl Compiler {
    /// A compiler that has produced nothing.
    pub fn new() -> (r: Self)
        ensures
            r@ == (CompilerView {
                constants: Seq::empty(),
                locals: Seq::empty(),
                code: Seq::empty(),
            }),
    {
        let r = Compiler {
            constants: Vec::new(),
            locals: NyarObject::new(),
            instructions: Vec::new(),
        };
        assert(code_view(r.instructions@) =~= Seq::empty());
        r
    }

    /// Source text is not parsed here: a front end provides the tree.
    pub fn parse(&self, source: &str) -> (r: Result<Hir, NyarErrorKind>)
        ensures
            r matches Err(NyarErrorKind::Custom { message }) && message@ == parser_text(),
    {
        Err(NyarErrorKind::Custom { message: "解析器尚未实现".to_owned() })
    }

    /// Adds a constant and returns its index in the pool.
    fn add_constant(&mut self, value: ConstantValue) -> (r: usize)
        ensures
            r == old(self)@.constants.len(),
            final(self)@ == old(self)@.constant(value),
    {
        self.constants.push(value);
        self.constants.len() - 1
    }

    /// Appends an instruction.
    fn emit(&mut self, instruction: NyarInstruction)
        ensures
            final(self)@ == old(self)@.emit(instruction.opcode, instruction.operands@),
    {
        self.instructions.push(instruction);
        assert(code_view(self.instructions@) =~= code_view(old(self).instructions@).push(
            (instruction.opcode, instruction.operands@),
        ));
    }

    /// Appends an instruction with one operand.
    fn emit_one(&mut self, opcode: OpCode, operand: usize)
        ensures
            final(self)@ == old(self)@.emit(opcode, seq![operand]),
    {
        let mut operands: Vec<usize> = Vec::new();
        operands.push(operand);
        assert(operands@ =~= seq![operand]);
        self.emit(NyarInstruction::new(opcode, operands));
    }

    /// Adds a constant and appends an instruction whose operand is its
    /// index.
    fn emit_with_constant(&mut self, opcode: OpCode, value: ConstantValue)
        ensures
            final(self)@ == old(self)@.emit_with_constant(opcode, value),
    {
        let index = self.add_constant(value);
        self.emit_one(opcode, index);
    }

    /// Replaces the instruction at `index` by one with one operand.
    fn patch(&mut self, index: usize, opcode: OpCode, operand: usize)
        requires
            index < old(self)@.code.len(),
        ensures
            final(self)@ == (CompilerView {
                code: old(self)@.code.update(index as int, (opcode, seq![operand])),
                ..old(self)@
            }),
    {
        let mut operands: Vec<usize> = Vec::new();
        operands.push(operand);
        assert(operands@ =~= seq![operand]);
        self.instructions.set(index, NyarInstruction::new(opcode, operands));
        assert(code_view(self.instructions@) =~= code_view(old(self).instructions@).update(
            index as int,
            (opcode, seq![operand]),
        ));
    }

    /// Compiles a literal: its constant is pushed.
    fn compile_literal(&mut self, literal: &LiteralValue)
        ensures
            final(self)@ == old(self)@.emit_with_constant(OpCode::Push, constant_of(*literal)),
    {
        self.emit_with_constant(OpCode::Push, literal.constant());
    }

    /// Compiles a reference to a variable: a local is loaded by its index,
    /// anything else as a global by its name.
    fn compile_var_reference(&mut self, name: &String)
        ensures
            final(self)@ == old(self)@.node(HirNode::VarReference(*name)),
    {
        match self.locals.get(name.as_str()) {
            Some(index) => {
                self.emit_one(OpCode::LoadLocal, index);
            },
            None => {
                self.emit_with_constant(OpCode::LoadGlobal, ConstantValue::String(name.clone()));
            },
        }
    }

    /// Compiles nodes in order.
    fn compile_nodes(&mut self, nodes: &Vec<HirNode>)
        ensures
            final(self)@ == old(self)@.nodes(nodes@, nodes@.len()),
        decreases nodes, 0nat,
    {
        let n = nodes.len();
        let mut i: usize = 0;
        while i < n
            invariant
                n == nodes@.len(),
                i <= n,
                self@ == old(self)@.nodes(nodes@, i as nat),
            decreases n - i,
        {
            self.compile_node(&nodes[i]);
            i = i + 1;
        }
    }

    /// Compiles the arguments of a call, the last one first.
    fn compile_reversed(&mut self, nodes: &Vec<HirNode>)
        ensures
            final(self)@ == old(self)@.nodes_reversed(nodes@, nodes@.len()),
        decreases nodes, 0nat,
    {
        let n = nodes.len();
        let mut i: usize = 0;
        while i < n
            invariant
                n == nodes@.len(),
                i <= n,
                self@ == old(self)@.nodes_reversed(nodes@, i as nat),
            decreases n - i,
        {
            self.compile_node(&nodes[n - 1 - i]);
            i = i + 1;
        }
    }

    /// Compiles the members of a class.
    fn compile_methods(&mut self, members: &Vec<HirNode>)
        ensures
            final(self)@ == old(self)@.methods(members@, members@.len()),
        decreases members, 0nat,
    {
        let n = members.len();
        let mut i: usize = 0;
        while i < n
            invariant
                n == members@.len(),
                i <= n,
                self@ == old(self)@.methods(members@, i as nat),
            decreases n - i,
        {
            match &members[i] {
                HirNode::FunctionDeclaration { name, params, body } => {
                    self.compile_node(&members[i]);
                    self.emit_with_constant(
                        OpCode::SetProperty,
                        ConstantValue::String(name.clone()),
                    );
                },
                _ => {},
            }
            i = i + 1;
        }
    }

    /// Compiles the declaration of a function. The body is compiled with
    /// the parameters as its locals; of that, the constants stay in the
    /// pool. The function itself is stored as a global under its name.
    fn compile_function_declaration(&mut self, name: &String, params: &Vec<String>, body: &Vec<HirNode>)
        ensures
            final(self)@ == old(self)@.node(
                HirNode::FunctionDeclaration { name: *name, params: *params, body: *body },
            ),
        decreases body, 1nat,
    {
        let mut outer_code: Vec<NyarInstruction> = Vec::new();
        core::mem::swap(&mut outer_code, &mut self.instructions);
        let mut outer_locals = NyarObject::new();
        core::mem::swap(&mut outer_locals, &mut self.locals);
        let count = params.len();
        let mut i: usize = 0;
        assert(code_view(self.instructions@) =~= Seq::empty());
        while i < count
            invariant
                count == params@.len(),
                i <= count,
                self.constants == old(self).constants,
                self.instructions@.len() == 0,
                self.locals@ == parameter_locals(params@, i as nat),
            decreases count - i,
        {
            self.locals.insert(params[i].clone(), i);
            i = i + 1;
        }
        assert(code_view(self.instructions@) =~= Seq::empty());
        self.compile_nodes(body);
        core::mem::swap(&mut outer_code, &mut self.instructions);
        core::mem::swap(&mut outer_locals, &mut self.locals);
        self.emit_with_constant(OpCode::Push, ConstantValue::Null);
        self.emit_with_constant(OpCode::StoreGlobal, ConstantValue::String(name.clone()));
    }

    /// Compiles a node.
    fn compile_node(&mut self, node: &HirNode)
        ensures
            final(self)@ == old(self)@.node(*node),
        decreases node,
    {
        match node {
            HirNode::Literal(literal) => {
                self.compile_literal(literal);
            },
            HirNode::VarDeclaration { name, initializer } => {
                self.compile_node(initializer);
                let index = self.locals.len();
                self.locals.insert(name.clone(), index);
                self.emit_one(OpCode::StoreLocal, index);
            },
            HirNode::VarReference(name) => {
                self.compile_var_reference(name);
            },
            HirNode::BinaryOp { op, left, right } => {
                self.compile_node(left);
                self.compile_node(right);
                self.emit(NyarInstruction::simple(op.opcode()));
                assert(Seq::<usize>::empty() =~= Seq::<usize>::empty());
            },
            HirNode::FunctionDeclaration { name, params, body } => {
                self.compile_function_declaration(name, params, body);
            },
            HirNode::FunctionCall { callee, args } => {
                self.compile_reversed(args);
                self.compile_node(callee);
                self.emit_one(OpCode::Call, args.len());
            },
            HirNode::IfStatement { condition, then_branch, else_branch } => {
                self.compile_node(condition);
                let branch = self.instructions.len();
                let ghost tested = self@;
                self.emit_one(OpCode::JumpIfNot, 0);
                let ghost begun = self@;
                self.compile_nodes(then_branch);
                proof {
                    begun.lemma_nodes_grow(then_branch@, then_branch@.len());
                }
                match else_branch {
                    Some(otherwise) => {
                        let skip = self.instructions.len();
                        self.emit_one(OpCode::Jump, 0);
                        let else_start = self.instructions.len();
                        self.patch(branch, OpCode::JumpIfNot, else_start);
                        let ghost patched = self@;
                        self.compile_nodes(otherwise);
                        proof {
                            patched.lemma_nodes_grow(otherwise@, otherwise@.len());
                        }
                        let after = self.instructions.len();
                        self.patch(skip, OpCode::Jump, after);
                    },
                    None => {
                        let after = self.instructions.len();
                        self.patch(branch, OpCode::JumpIfNot, after);
                    },
                }
            },
            HirNode::LoopStatement { body } => {
                let start = self.instructions.len();
                self.emit(NyarInstruction::simple(OpCode::Loop));
                self.compile_nodes(body);
                self.emit_one(OpCode::Jump, start);
            },
            HirNode::ReturnStatement { value } => {
                match value {
                    Some(v) => {
                        self.compile_node(v);
                    },
                    None => {
                        self.emit_with_constant(OpCode::Push, ConstantValue::Null);
                    },
                }
                self.emit(NyarInstruction::simple(OpCode::Return));
            },
            HirNode::ClassDeclaration { name, methods } => {
                self.emit_with_constant(OpCode::NewObject, ConstantValue::String(name.clone()));
                self.compile_methods(methods);
                self.emit_with_constant(OpCode::StoreGlobal, ConstantValue::String(name.clone()));
            },
            HirNode::TraitDeclaration { name, methods } => {},
            HirNode::EnumDeclaration { name, variants } => {},
        }
    }

    /// Compiles a tree from scratch and hands out the code with its pool
    /// of constants. What was compiled before is dropped.
    pub fn compile(&mut self, hir: &Hir) -> (r: CodeBlock)
        ensures
            ({
                let done = (CompilerView {
                    constants: Seq::empty(),
                    locals: Seq::empty(),
                    code: Seq::empty(),
                }).nodes(hir.nodes@, hir.nodes@.len());
                &&& code_view(r.instructions@) == done.code
                &&& r.constants@ == done.constants
                &&& r.locals@.len() == 0
                &&& final(self)@ == (CompilerView {
                    constants: Seq::empty(),
                    locals: done.locals,
                    code: Seq::empty(),
                })
            }),
    {
        self.constants = Vec::new();
        self.locals = NyarObject::new();
        self.instructions = Vec::new();
        assert(code_view(self.instructions@) =~= Seq::empty());
        self.compile_nodes(&hir.nodes);
        let mut block = CodeBlock::new();
        assert(code_view(block.instructions@) =~= Seq::empty());
        core::mem::swap(&mut block.instructions, &mut self.instructions);
        core::mem::swap(&mut block.constants, &mut self.constants);
        assert(self.constants@ =~= Seq::empty());
        block
    }
}

} // verus!
