//! Lowering of the tree to values: what a part of the tree stands for
//! before anything runs. Literals and function definitions stand for
//! values; whatever needs a running machine is refused.

use crate::ast::{
    Expression, FunctionDefinition, LambdaExpression, Literal, Program, Statement,
    VariableDeclaration,
};
use crate::error::NyarErrorKind;
use crate::heap::{Heap, HeapView};
use crate::object::{entry_store, NyarObject};
use crate::value::{
    copy_names, integer_from, integer_of, names_view, Function, FunctionView, Value, ValueView,
};
use vstd::prelude::*;
use vstd::string::StringExecFns;

verus! {

/// A heap after lowering, and the value or the reason for the refusal.
pub type Lowered = (HeapView, Result<ValueView, Seq<char>>);

/// A heap after lowering several parts, and the handles of their values or
/// the reason for the refusal.
pub type LoweredAll = (HeapView, Result<Seq<usize>, Seq<char>>);

/// A heap after lowering the properties of an object.
pub type LoweredEntries = (HeapView, Result<Seq<(Seq<char>, usize)>, Seq<char>>);

pub open spec fn variable_text(name: Seq<char>) -> Seq<char> {
    "变量 '"@ + name + "' 需要在运行时解析"@
}

pub open spec fn binary_text() -> Seq<char> {
    "二元表达式需要在运行时计算"@
}

pub open spec fn unary_text() -> Seq<char> {
    "一元表达式需要在运行时计算"@
}

pub open spec fn call_text() -> Seq<char> {
    "函数调用需要在运行时执行"@
}

pub open spec fn conditional_text() -> Seq<char> {
    "条件表达式需要在运行时计算"@
}

pub open spec fn member_text() -> Seq<char> {
    "成员访问需要在运行时解析"@
}

pub open spec fn index_text() -> Seq<char> {
    "索引访问需要在运行时解析"@
}

pub open spec fn effect_text() -> Seq<char> {
    "效应操作需要在运行时处理"@
}

pub open spec fn if_text() -> Seq<char> {
    "条件语句需要在运行时执行"@
}

pub open spec fn loop_text() -> Seq<char> {
    "循环语句需要在运行时执行"@
}

pub open spec fn try_text() -> Seq<char> {
    "尝试-捕获语句需要在运行时执行"@
}

/// The function that a definition stands for: it has the parameters, no
/// body yet, and a new empty environment.
pub open spec fn lower_function(name: Option<Seq<char>>, parameters: Seq<String>, heap: HeapView)
    -> Lowered {
    (
        heap.allocate(ValueView::Object(Seq::empty())),
        Ok(
            ValueView::Function(
                FunctionView {
                    name,
                    parameters: names_view(parameters),
                    body_start: 0,
                    body_size: 0,
                    environment: heap.next_index(),
                },
            ),
        ),
    )
}

/// What an expression stands for.
pub open spec fn lower_expression(e: Expression, heap: HeapView) -> Lowered
    decreases e,
{
    match e {
        Expression::Literal(l) => lower_literal(l, heap),
        Expression::Variable(name) => (heap, Err(variable_text(name@))),
        Expression::Binary(_) => (heap, Err(binary_text())),
        Expression::Unary(_) => (heap, Err(unary_text())),
        Expression::Call(_) => (heap, Err(call_text())),
        Expression::Lambda(f) => lower_function(None, f.parameters@, heap),
        Expression::Conditional(_) => (heap, Err(conditional_text())),
        Expression::MemberAccess(_) => (heap, Err(member_text())),
        Expression::IndexAccess(_) => (heap, Err(index_text())),
        Expression::Effect(_) => (heap, Err(effect_text())),
    }
}

/// What a literal stands for. The items of a list and the properties of an
/// object are lowered in order, and each value is allocated.
pub open spec fn lower_literal(l: Literal, heap: HeapView) -> Lowered
    decreases l,
{
    match l {
        Literal::Null => (heap, Ok(ValueView::Null)),
        Literal::Boolean(b) => (heap, Ok(ValueView::Boolean(b))),
        Literal::Integer(n) => (heap, Ok(ValueView::Integer(integer_of(n)))),
        Literal::String(s) => (heap, Ok(ValueView::String(s@))),
        Literal::List(items) => match lower_items(items@, items@.len(), heap) {
            (after, Ok(handles)) => (after, Ok(ValueView::Vector(handles))),
            (after, Err(e)) => (after, Err(e)),
        },
        Literal::Object(properties) => match lower_properties(
            properties@,
            properties@.len(),
            heap,
        ) {
            (after, Ok(entries)) => (after, Ok(ValueView::Object(entries))),
            (after, Err(e)) => (after, Err(e)),
        },
    }
}

/// The handles of what the first `n` expressions stand for.
pub open spec fn lower_items(items: Seq<Expression>, n: nat, heap: HeapView) -> LoweredAll
    decreases items, n,
{
    if n == 0 || n > items.len() {
        (heap, Ok(Seq::empty()))
    } else {
        match lower_items(items, (n - 1) as nat, heap) {
            (after, Err(e)) => (after, Err(e)),
            (after, Ok(handles)) => match lower_expression(items[n - 1], after) {
                (last, Err(e)) => (last, Err(e)),
                (last, Ok(v)) => (last.allocate(v), Ok(handles.push(last.next_index()))),
            },
        }
    }
}

/// The entries of what the first `n` properties stand for.
pub open spec fn lower_properties(properties: Seq<(String, Expression)>, n: nat, heap: HeapView)
    -> LoweredEntries
    decreases properties, n,
{
    if n == 0 || n > properties.len() {
        (heap, Ok(Seq::empty()))
    } else {
        match lower_properties(properties, (n - 1) as nat, heap) {
            (after, Err(e)) => (after, Err(e)),
            (after, Ok(entries)) => match lower_expression(properties[n - 1].1, after) {
                (last, Err(e)) => (last, Err(e)),
                (last, Ok(v)) => (
                    last.allocate(v),
                    Ok(entry_store(entries, properties[n - 1].0@, last.next_index())),
                ),
            },
        }
    }
}

/// What an optional expression stands for: null where there is none.
pub open spec fn lower_optional(e: Option<Expression>, heap: HeapView) -> Lowered
    decreases e,
{
    match e {
        Some(expression) => lower_expression(expression, heap),
        None => (heap, Ok(ValueView::Null)),
    }
}

/// What a statement stands for.
pub open spec fn lower_statement(s: Statement, heap: HeapView) -> Lowered
    decreases s,
{
    match s {
        Statement::Expression(e) => lower_expression(e, heap),
        Statement::VariableDeclaration(d) => lower_optional(d.initializer, heap),
        Statement::Assignment(a) => lower_expression(a.value, heap),
        Statement::If(_) => (heap, Err(if_text())),
        Statement::Loop(_) => (heap, Err(loop_text())),
        Statement::Return(e) => lower_optional(e, heap),
        Statement::Block(statements) => match lower_statements(
            statements@,
            statements@.len(),
            heap,
        ) {
            (after, Ok(handles)) => (after, Ok(ValueView::Vector(handles))),
            (after, Err(e)) => (after, Err(e)),
        },
        Statement::FunctionDeclaration(f) => lower_function(Some(f.name@), f.parameters@, heap),
        Statement::EffectHandler(h) => lower_function(
            Some(h.handler.name@),
            h.handler.parameters@,
            heap,
        ),
        Statement::Import(_) => (heap, Ok(ValueView::Null)),
        Statement::Export(e) => lower_statement(*e.declaration, heap),
        Statement::TryCatch(_) => (heap, Err(try_text())),
        Statement::Throw(e) => lower_expression(e, heap),
        Statement::Assert(e, _) => lower_expression(e, heap),
    }
}

/// The handles of what the first `n` statements stand for.
pub open spec fn lower_statements(statements: Seq<Statement>, n: nat, heap: HeapView) -> LoweredAll
    decreases statements, n,
{
    if n == 0 || n > statements.len() {
        (heap, Ok(Seq::empty()))
    } else {
        match lower_statements(statements, (n - 1) as nat, heap) {
            (after, Err(e)) => (after, Err(e)),
            (after, Ok(handles)) => match lower_statement(statements[n - 1], after) {
                (last, Err(e)) => (last, Err(e)),
                (last, Ok(v)) => (last.allocate(v), Ok(handles.push(last.next_index()))),
            },
        }
    }
}

/// The result of a lowering, as the contracts state it: a refusal is a
/// custom error with the reason as its message.
pub open spec fn lowered_view(r: Result<Value, NyarErrorKind>) -> Result<ValueView, Seq<char>> {
    match r {
        Ok(v) => Ok(v@),
        Err(NyarErrorKind::Custom { message }) => Err(message@),
        Err(_) => Err(Seq::empty()),
    }
}

/// Whether the result is a value or a custom error.
pub open spec fn refusal_is_custom(r: Result<Value, NyarErrorKind>) -> bool {
    match r {
        Ok(_) => true,
        Err(e) => e is Custom,
    }
}

/// The refusal with the given reason.
fn refuse(reason: &str) -> (r: Result<Value, NyarErrorKind>)
    ensures
        lowered_view(r) == Err::<ValueView, Seq<char>>(reason@),
        refusal_is_custom(r),
{
    Err(NyarErrorKind::Custom { message: reason.to_owned() })
}

/// The function that a definition stands for.
fn function_value(name: Option<String>, parameters: &Vec<String>, heap: &mut Heap) -> (r: Result<
    Value,
    NyarErrorKind,
>)
    requires
        old(heap).wf(),
    ensures
        final(heap).wf(),
        refusal_is_custom(r),
        (final(heap)@, lowered_view(r)) == lower_function(
            crate::value::name_view(name),
            parameters@,
            old(heap)@,
        ),
{
    let environment = heap.allocate(Value::Object(NyarObject::new()));
    Ok(
        Value::Function(
            Function {
                name,
                parameters: copy_names(parameters),
                body_start: 0,
                body_size: 0,
                environment: environment.index,
            },
        ),
    )
}

impl Expression {
    /// The value that the expression stands for, with what it needs
    /// allocated on the heap; a custom error where the expression needs a
    /// running machine.
    pub fn to_lir(&self, heap: &mut Heap) -> (r: Result<Value, NyarErrorKind>)
        requires
            old(heap).wf(),
        ensures
            final(heap).wf(),
            refusal_is_custom(r),
            (final(heap)@, lowered_view(r)) == lower_expression(*self, old(heap)@),
        decreases self,
    {
        match self {
            Expression::Literal(l) => l.to_lir(heap),
            Expression::Variable(name) => {
                let text = "变量 '".to_owned().concat(name.as_str()).concat("' 需要在运行时解析");
                Err(NyarErrorKind::Custom { message: text })
            },
            Expression::Binary(_) => refuse("二元表达式需要在运行时计算"),
            Expression::Unary(_) => refuse("一元表达式需要在运行时计算"),
            Expression::Call(_) => refuse("函数调用需要在运行时执行"),
            Expression::Lambda(f) => function_value(None, &f.parameters, heap),
            Expression::Conditional(_) => refuse("条件表达式需要在运行时计算"),
            Expression::MemberAccess(_) => refuse("成员访问需要在运行时解析"),
            Expression::IndexAccess(_) => refuse("索引访问需要在运行时解析"),
            Expression::Effect(_) => refuse("效应操作需要在运行时处理"),
        }
    }
}

impl Literal {
    /// The value that the literal stands for.
    pub fn to_lir(&self, heap: &mut Heap) -> (r: Result<Value, NyarErrorKind>)
        requires
            old(heap).wf(),
        ensures
            final(heap).wf(),
            refusal_is_custom(r),
            (final(heap)@, lowered_view(r)) == lower_literal(*self, old(heap)@),
        decreases self,
    {
        match self {
            Literal::Null => Ok(Value::Null),
            Literal::Boolean(b) => Ok(Value::Boolean(*b)),
            Literal::Integer(n) => Ok(Value::Integer(integer_from(*n))),
            Literal::String(s) => Ok(Value::String(s.clone())),
            Literal::List(items) => match items_to_lir(items, heap) {
                Ok(handles) => Ok(Value::Vector(handles)),
                Err(e) => Err(e),
            },
            Literal::Object(properties) => match properties_to_lir(properties, heap) {
                Ok(object) => Ok(Value::Object(object)),
                Err(e) => Err(e),
            },
        }
    }
}

/// The reason of a refusal.
pub open spec fn reason<A>(r: Result<A, NyarErrorKind>) -> Seq<char> {
    match r {
        Err(NyarErrorKind::Custom { message }) => message@,
        _ => Seq::empty(),
    }
}

/// The handles of the values that the expressions stand for.
fn items_to_lir(items: &Vec<Expression>, heap: &mut Heap) -> (r: Result<Vec<usize>, NyarErrorKind>)
    requires
        old(heap).wf(),
    ensures
        final(heap).wf(),
        r.is_err() ==> r.unwrap_err() is Custom,
        match lower_items(items@, items@.len(), old(heap)@) {
            (after, Ok(handles)) => final(heap)@ == after && r.is_ok() && r.unwrap()@ == handles,
            (after, Err(e)) => final(heap)@ == after && r.is_err() && reason(r) == e,
        },
    decreases items, 0nat,
{
    let n = items.len();
    let mut handles: Vec<usize> = Vec::new();
    let mut i: usize = 0;
    while i < n
        invariant
            n == items@.len(),
            i <= n,
            heap.wf(),
            lower_items(items@, i as nat, old(heap)@) == (
                heap@,
                Ok::<Seq<usize>, Seq<char>>(handles@),
            ),
        decreases n - i,
    {
        let ghost before = heap@;
        match items[i].to_lir(heap) {
            Err(e) => {
                proof {
                    assert(lower_expression(items@[i as int], before).1.is_err());
                    assert(lower_items(items@, (i + 1) as nat, old(heap)@).1.is_err());
                    lemma_items_refused(items@, (i + 1) as nat, n as nat, old(heap)@);
                }
                return Err(e);
            },
            Ok(v) => {
                let h = heap.allocate(v);
                handles.push(h.index);
            },
        }
        i = i + 1;
    }
    Ok(handles)
}

/// The object that the properties stand for.
fn properties_to_lir(properties: &Vec<(String, Expression)>, heap: &mut Heap) -> (r: Result<
    NyarObject,
    NyarErrorKind,
>)
    requires
        old(heap).wf(),
    ensures
        final(heap).wf(),
        r.is_err() ==> r.unwrap_err() is Custom,
        match lower_properties(properties@, properties@.len(), old(heap)@) {
            (after, Ok(entries)) => final(heap)@ == after && r.is_ok() && r.unwrap()@ == entries,
            (after, Err(e)) => final(heap)@ == after && r.is_err() && reason(r) == e,
        },
    decreases properties, 0nat,
{
    let n = properties.len();
    let mut object = NyarObject::new();
    let mut i: usize = 0;
    while i < n
        invariant
            n == properties@.len(),
            i <= n,
            heap.wf(),
            lower_properties(properties@, i as nat, old(heap)@) == (
                heap@,
                Ok::<Seq<(Seq<char>, usize)>, Seq<char>>(object@),
            ),
        decreases n - i,
    {
        let ghost before = heap@;
        match properties[i].1.to_lir(heap) {
            Err(e) => {
                proof {
                    assert(lower_expression(properties@[i as int].1, before).1.is_err());
                    assert(lower_properties(properties@, (i + 1) as nat, old(heap)@).1.is_err());
                    lemma_properties_refused(properties@, (i + 1) as nat, n as nat, old(heap)@);
                }
                return Err(e);
            },
            Ok(v) => {
                let h = heap.allocate(v);
                object.insert(properties[i].0.clone(), h.index);
            },
        }
        i = i + 1;
    }
    Ok(object)
}

/// Once an item is refused, the whole list is, for the same reason and
/// with the same heap.
pub proof fn lemma_items_refused(items: Seq<Expression>, i: nat, n: nat, heap: HeapView)
    requires
        i <= n <= items.len(),
        lower_items(items, i, heap).1.is_err(),
    ensures
        lower_items(items, n, heap) == lower_items(items, i, heap),
    decreases n,
{
    if i < n {
        lemma_items_refused(items, i, (n - 1) as nat, heap);
    }
}

/// Once a property is refused, the whole object is.
pub proof fn lemma_properties_refused(
    properties: Seq<(String, Expression)>,
    i: nat,
    n: nat,
    heap: HeapView,
)
    requires
        i <= n <= properties.len(),
        lower_properties(properties, i, heap).1.is_err(),
    ensures
        lower_properties(properties, n, heap) == lower_properties(properties, i, heap),
    decreases n,
{
    if i < n {
        lemma_properties_refused(properties, i, (n - 1) as nat, heap);
    }
}

/// Once a statement is refused, the whole block is.
pub proof fn lemma_statements_refused(statements: Seq<Statement>, i: nat, n: nat, heap: HeapView)
    requires
        i <= n <= statements.len(),
        lower_statements(statements, i, heap).1.is_err(),
    ensures
        lower_statements(statements, n, heap) == lower_statements(statements, i, heap),
    decreases n,
{
    if i < n {
        lemma_statements_refused(statements, i, (n - 1) as nat, heap);
    }
}

/// The value that an optional expression stands for.
fn optional_to_lir(e: &Option<Expression>, heap: &mut Heap) -> (r: Result<Value, NyarErrorKind>)
    requires
        old(heap).wf(),
    ensures
        final(heap).wf(),
        refusal_is_custom(r),
        (final(heap)@, lowered_view(r)) == lower_optional(*e, old(heap)@),
{
    match e {
        Some(expression) => expression.to_lir(heap),
        None => Ok(Value::Null),
    }
}

/// The handles of the values that the statements stand for.
fn statements_to_lir(statements: &Vec<Statement>, heap: &mut Heap) -> (r: Result<
    Value,
    NyarErrorKind,
>)
    requires
        old(heap).wf(),
    ensures
        final(heap).wf(),
        refusal_is_custom(r),
        match lower_statements(statements@, statements@.len(), old(heap)@) {
            (after, Ok(handles)) => final(heap)@ == after && lowered_view(r) == Ok::<
                ValueView,
                Seq<char>,
            >(ValueView::Vector(handles)),
            (after, Err(e)) => final(heap)@ == after && lowered_view(r) == Err::<
                ValueView,
                Seq<char>,
            >(e),
        },
    decreases statements, 0nat,
{
    let n = statements.len();
    let mut handles: Vec<usize> = Vec::new();
    let mut i: usize = 0;
    while i < n
        invariant
            n == statements@.len(),
            i <= n,
            heap.wf(),
            lower_statements(statements@, i as nat, old(heap)@) == (
                heap@,
                Ok::<Seq<usize>, Seq<char>>(handles@),
            ),
        decreases n - i,
    {
        let ghost before = heap@;
        match statements[i].to_lir(heap) {
            Err(e) => {
                proof {
                    assert(lower_statement(statements@[i as int], before).1.is_err());
                    assert(lower_statements(statements@, (i + 1) as nat, old(heap)@).1.is_err());
                    lemma_statements_refused(statements@, (i + 1) as nat, n as nat, old(heap)@);
                }
                return Err(e);
            },
            Ok(v) => {
                let h = heap.allocate(v);
                handles.push(h.index);
            },
        }
        i = i + 1;
    }
    Ok(Value::Vector(handles))
}

impl VariableDeclaration {
    /// The value of the initializer; null where there is none.
    pub fn to_lir(&self, heap: &mut Heap) -> (r: Result<Value, NyarErrorKind>)
        requires
            old(heap).wf(),
        ensures
            final(heap).wf(),
            refusal_is_custom(r),
            (final(heap)@, lowered_view(r)) == lower_optional(self.initializer, old(heap)@),
    {
        optional_to_lir(&self.initializer, heap)
    }
}

impl LambdaExpression {
    /// The function that the lambda stands for.
    pub fn to_lir(&self, heap: &mut Heap) -> (r: Result<Value, NyarErrorKind>)
        requires
            old(heap).wf(),
        ensures
            final(heap).wf(),
            refusal_is_custom(r),
            (final(heap)@, lowered_view(r)) == lower_function(None, self.parameters@, old(heap)@),
    {
        function_value(None, &self.parameters, heap)
    }
}

impl FunctionDefinition {
    /// The function that the definition stands for.
    pub fn to_lir(&self, heap: &mut Heap) -> (r: Result<Value, NyarErrorKind>)
        requires
            old(heap).wf(),
        ensures
            final(heap).wf(),
            refusal_is_custom(r),
            (final(heap)@, lowered_view(r)) == lower_function(
                Some(self.name@),
                self.parameters@,
                old(heap)@,
            ),
    {
        function_value(Some(self.name.clone()), &self.parameters, heap)
    }
}

impl Statement {
    /// The value that the statement stands for.
    pub fn to_lir(&self, heap: &mut Heap) -> (r: Result<Value, NyarErrorKind>)
        requires
            old(heap).wf(),
        ensures
            final(heap).wf(),
            refusal_is_custom(r),
            (final(heap)@, lowered_view(r)) == lower_statement(*self, old(heap)@),
        decreases self, 1nat,
    {
        match self {
            Statement::Expression(e) => e.to_lir(heap),
            Statement::VariableDeclaration(d) => d.to_lir(heap),
            Statement::Assignment(a) => a.value.to_lir(heap),
            Statement::If(_) => refuse("条件语句需要在运行时执行"),
            Statement::Loop(_) => refuse("循环语句需要在运行时执行"),
            Statement::Return(e) => optional_to_lir(e, heap),
            Statement::Block(statements) => statements_to_lir(statements, heap),
            Statement::FunctionDeclaration(f) => f.to_lir(heap),
            Statement::EffectHandler(h) => h.handler.to_lir(heap),
            Statement::Import(_) => Ok(Value::Null),
            Statement::Export(e) => e.declaration.to_lir(heap),
            Statement::TryCatch(_) => refuse("尝试-捕获语句需要在运行时执行"),
            Statement::Throw(e) => e.to_lir(heap),
            Statement::Assert(e, _) => e.to_lir(heap),
        }
    }
}

impl Program {
    /// The vector of the values that the statements stand for.
    pub fn to_lir(&self, heap: &mut Heap) -> (r: Result<Value, NyarErrorKind>)
        requires
            old(heap).wf(),
        ensures
            final(heap).wf(),
            refusal_is_custom(r),
            match lower_statements(self.statements@, self.statements@.len(), old(heap)@) {
                (after, Ok(handles)) => final(heap)@ == after && lowered_view(r) == Ok::<
                    ValueView,
                    Seq<char>,
                >(ValueView::Vector(handles)),
                (after, Err(e)) => final(heap)@ == after && lowered_view(r) == Err::<
                    ValueView,
                    Seq<char>,
                >(e),
            },
    {
        statements_to_lir(&self.statements, heap)
    }
}

} // verus!
