//! The high-level tree that a front end hands over before it is lowered to
//! instructions.

use vstd::prelude::*;

verus! {

/// An expression.
#[derive(Debug)]
pub enum Expression {
    Literal(Literal),
    Variable(String),
    Binary(Box<BinaryExpression>),
    Unary(Box<UnaryExpression>),
    Call(Box<CallExpression>),
    Lambda(Box<LambdaExpression>),
    Conditional(Box<ConditionalExpression>),
    MemberAccess(Box<MemberAccessExpression>),
    IndexAccess(Box<IndexAccessExpression>),
    Effect(Box<EffectExpression>),
}

/// A literal.
#[derive(Debug)]
pub enum Literal {
    Null,
    Boolean(bool),
    Integer(i64),
    String(String),
    List(Vec<Expression>),
    /// The properties of an object literal, in source order.
    Object(Vec<(String, Expression)>),
}

#[derive(Debug)]
pub struct BinaryExpression {
    pub left: Expression,
    pub operator: String,
    pub right: Expression,
}

#[derive(Debug)]
pub struct UnaryExpression {
    pub operator: String,
    pub operand: Expression,
}

#[derive(Debug)]
pub struct CallExpression {
    pub callee: Expression,
    pub arguments: Vec<Expression>,
}

#[derive(Debug)]
pub struct LambdaExpression {
    pub parameters: Vec<String>,
    pub body: Expression,
}

#[derive(Debug)]
pub struct ConditionalExpression {
    pub condition: Expression,
    pub then_branch: Expression,
    pub else_branch: Option<Expression>,
}

#[derive(Debug)]
pub struct MemberAccessExpression {
    pub object: Expression,
    pub member: String,
}

#[derive(Debug)]
pub struct IndexAccessExpression {
    pub object: Expression,
    pub index: Expression,
}

#[derive(Debug)]
pub struct EffectExpression {
    pub name: String,
    pub arguments: Vec<Expression>,
}

/// The definition of a function.
#[derive(Debug)]
pub struct FunctionDefinition {
    pub name: String,
    pub parameters: Vec<String>,
    pub body: Vec<Statement>,
}

/// A statement.
#[derive(Debug)]
pub enum Statement {
    Expression(Expression),
    VariableDeclaration(VariableDeclaration),
    Assignment(Assignment),
    If(IfStatement),
    Loop(LoopStatement),
    Return(Option<Expression>),
    Block(Vec<Statement>),
    FunctionDeclaration(FunctionDefinition),
    EffectHandler(EffectHandlerDefinition),
    Import(ImportStatement),
    Export(ExportStatement),
    TryCatch(TryCatchStatement),
    Throw(Expression),
    Assert(Expression, Option<String>),
}

#[derive(Debug)]
pub struct VariableDeclaration {
    pub name: String,
    pub type_annotation: Option<String>,
    pub initializer: Option<Expression>,
    pub is_constant: bool,
}

#[derive(Debug)]
pub struct Assignment {
    pub target: Expression,
    pub value: Expression,
}

#[derive(Debug)]
pub struct IfStatement {
    pub condition: Expression,
    pub then_branch: Vec<Statement>,
    pub else_branch: Option<Vec<Statement>>,
}

#[derive(Debug)]
pub enum LoopStatement {
    While { condition: Expression, body: Vec<Statement> },
    For { initializer: Box<Statement>, condition: Expression, update: Box<Statement>, body: Vec<
        Statement,
    > },
    ForEach { variable: String, iterable: Expression, body: Vec<Statement> },
    Infinite { body: Vec<Statement> },
}

#[derive(Debug)]
pub struct EffectHandlerDefinition {
    pub name: String,
    pub handler: FunctionDefinition,
}

#[derive(Debug)]
pub struct ImportStatement {
    pub path: String,
    pub symbols: Vec<String>,
    pub is_all: bool,
    pub alias: Option<String>,
}

#[derive(Debug)]
pub struct ExportStatement {
    pub declaration: Box<Statement>,
}

#[derive(Debug)]
pub struct TryCatchStatement {
    pub try_block: Vec<Statement>,
    pub catch_blocks: Vec<CatchBlock>,
    pub finally_block: Option<Vec<Statement>>,
}

#[derive(Debug)]
pub struct CatchBlock {
    pub error_type: Option<String>,
    pub error_variable: String,
    pub handler: Vec<Statement>,
}

/// A program: its statements in order.
#[derive(Debug)]
pub struct Program {
    pub statements: Vec<Statement>,
}

impl Program {
    /// A program without statements.
    pub fn new() -> (r: Self)
        ensures
            r.statements@.len() == 0,
    {
        Program { statements: Vec::new() }
    }

    /// Appends a statement.
    pub fn add_statement(&mut self, statement: Statement)
        ensures
            final(self).statements@ == old(self).statements@.push(statement),
    {
        self.statements.push(statement);
    }
}

} // verus!
