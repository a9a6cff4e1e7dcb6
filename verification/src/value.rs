//! The values a heap cell can hold, and what the collector needs of them:
//! the handles a value holds and the value with its handles forwarded.

use crate::context::{
    append_handles, forward, forward_all, forward_handle, forward_handles,
    lemma_forward_all_concat, ContextView, ExecutionContext,
};
use crate::error::VmError;
use crate::object::{entries_forwarded, entry_values, NyarObject};
use num::BigInt;
use vstd::prelude::*;

verus! {

/// `num::BigInt`, the arbitrary-precision integer, as an opaque type.
#[verifier::external_type_specification]
#[verifier::external_body]
pub struct ExBigInt(BigInt);

/// `Clone::clone` of `num::BigInt`: the copy is the same integer.
#[verifier::external_body]
pub(crate) fn integer_clone(n: &BigInt) -> (r: BigInt)
    ensures
        r == *n,
{
    n.clone()
}

/// What `num::BigInt::from` returns for the machine integer `n`: the big
/// integer with the value `n`.
pub uninterp spec fn integer_of(n: i64) -> BigInt;

/// `num::BigInt::from` for a machine integer: the big integer with the
/// same value.
#[verifier::external_body]
pub(crate) fn integer_from(n: i64) -> (r: BigInt)
    ensures
        r == integer_of(n),
{
    BigInt::from(n)
}

/// Where a coroutine stands in its life.
#[derive(Debug, Clone, Copy, PartialEq, Eq, Structural)]
pub enum CoroutineState {
    /// Created and never resumed.
    Initial,
    /// Its context is the live one.
    Running,
    /// It yielded and waits to be resumed.
    Suspended,
    /// Its body returned.
    Completed,
    /// Its body failed.
    Failed,
}

/// The type tag of a value.
#[derive(Debug, Clone, Copy, PartialEq, Eq, Structural)]
pub enum ValueType {
    Null,
    Boolean,
    Integer,
    String,
    Array,
    Object,
    Function,
    Class,
    Trait,
    Enum,
    Coroutine,
    Handler,
}

/// A function record: its name, its parameters, where its body stands in
/// the code, and the environment it closed over.
#[derive(Debug)]
pub struct Function {
    /// The name, absent for an anonymous function.
    pub name: Option<String>,
    /// The parameter names, in call order.
    pub parameters: Vec<String>,
    /// Index of the first instruction of the body.
    pub body_start: usize,
    /// Number of instructions of the body.
    pub body_size: usize,
    /// Handle of the object that holds the captured variables.
    pub environment: usize,
}

/// A class declaration.
#[derive(Debug)]
pub struct Class {
    pub name: String,
    /// Handle of the parent class.
    pub parent: Option<usize>,
    /// Handles of the implemented traits.
    pub traits: Vec<usize>,
    /// Method table: handles of functions by name.
    pub methods: NyarObject,
    /// Static properties: handles of values by name.
    pub properties: NyarObject,
}

/// The signature of one trait method.
#[derive(Debug)]
pub struct MethodSignature {
    pub name: String,
    pub parameter_types: Vec<String>,
    pub return_type: String,
}

/// A trait declaration.
#[derive(Debug)]
pub struct NyarTrait {
    pub name: String,
    pub methods: Vec<MethodSignature>,
}

/// An enum declaration.
#[derive(Debug)]
pub struct Enum {
    pub name: String,
    /// Handles of the variants by name.
    pub variants: NyarObject,
}

/// A coroutine record.
#[derive(Debug)]
pub struct Coroutine {
    pub state: CoroutineState,
    /// Handle of the function whose body the coroutine runs.
    pub function: usize,
    /// The saved context; meaningful while the coroutine is suspended.
    pub context: ExecutionContext,
    /// The value the body returned, once the coroutine is completed.
    pub result: Option<usize>,
}

/// An effect handler record.
#[derive(Debug)]
pub struct EffectHandler {
    /// The effect that the handler handles.
    pub name: String,
    /// Handle of the handler function.
    pub handler: usize,
    /// Number of frames on the call stack when the handler was installed.
    pub install_depth: usize,
    /// The continuation of the raise that is being handled, if one is.
    pub resume_point: Option<ExecutionContext>,
}

/// What a heap cell holds.
#[derive(Debug)]
pub enum Value {
    Null,
    Boolean(bool),
    Integer(BigInt),
    String(String),
    /// An ordered sequence of handles.
    Vector(Vec<usize>),
    Object(NyarObject),
    Function(Function),
    Class(Class),
    Trait(NyarTrait),
    Enum(Enum),
    Coroutine(Coroutine),
    Handler(EffectHandler),
}

pub struct FunctionView {
    pub name: Option<Seq<char>>,
    pub parameters: Seq<Seq<char>>,
    pub body_start: usize,
    pub body_size: usize,
    pub environment: usize,
}

pub struct ClassView {
    pub name: Seq<char>,
    pub parent: Option<usize>,
    pub traits: Seq<usize>,
    pub methods: Seq<(Seq<char>, usize)>,
    pub properties: Seq<(Seq<char>, usize)>,
}

pub struct SignatureView {
    pub name: Seq<char>,
    pub parameter_types: Seq<Seq<char>>,
    pub return_type: Seq<char>,
}

pub struct TraitView {
    pub name: Seq<char>,
    pub methods: Seq<SignatureView>,
}

pub struct EnumView {
    pub name: Seq<char>,
    pub variants: Seq<(Seq<char>, usize)>,
}

pub struct CoroutineView {
    pub state: CoroutineState,
    pub function: usize,
    pub context: ContextView,
    pub result: Option<usize>,
}

pub struct HandlerView {
    pub name: Seq<char>,
    pub handler: usize,
    pub install_depth: usize,
    pub resume_point: Option<ContextView>,
}

/// The mathematical content of a [`Value`].
pub enum ValueView {
    Null,
    Boolean(bool),
    Integer(BigInt),
    String(Seq<char>),
    Vector(Seq<usize>),
    Object(Seq<(Seq<char>, usize)>),
    Function(FunctionView),
    Class(ClassView),
    Trait(TraitView),
    Enum(EnumView),
    Coroutine(CoroutineView),
    Handler(HandlerView),
}

/// The names as sequences of characters.
pub open spec fn names_view(names: Seq<String>) -> Seq<Seq<char>> {
    Seq::new(names.len(), |i: int| names[i]@)
}

/// The name as a sequence of characters, where there is one.
pub open spec fn name_view(name: Option<String>) -> Option<Seq<char>> {
    match name {
        Some(s) => Some(s@),
        None => None,
    }
}

/// The saved context as its view, where there is one.
pub open spec fn context_view(context: Option<ExecutionContext>) -> Option<ContextView> {
    match context {
        Some(c) => Some(c@),
        None => None,
    }
}

/// The handle as a sequence of at most one item.
pub open spec fn option_handles(h: Option<usize>) -> Seq<usize> {
    match h {
        Some(i) => seq![i],
        None => Seq::<usize>::empty(),
    }
}

/// The handle forwarded, where there is one.
pub open spec fn option_forwarded(h: Option<usize>, table: Seq<usize>) -> Option<usize> {
    match h {
        Some(i) => Some(forward(table, i)),
        None => None,
    }
}

/// The handles of the saved context, where there is one.
pub open spec fn context_handles(c: Option<ContextView>) -> Seq<usize> {
    match c {
        Some(ctx) => ctx.handles(),
        None => Seq::<usize>::empty(),
    }
}

/// The saved context forwarded, where there is one.
pub open spec fn context_forwarded(c: Option<ContextView>, table: Seq<usize>) -> Option<
    ContextView,
> {
    match c {
        Some(ctx) => Some(ctx.forwarded(table)),
        None => None,
    }
}

impl View for MethodSignature {
    type V = SignatureView;

    open spec fn view(&self) -> SignatureView {
        SignatureView {
            name: self.name@,
            parameter_types: names_view(self.parameter_types@),
            return_type: self.return_type@,
        }
    }
}

impl View for Function {
    type V = FunctionView;

    open spec fn view(&self) -> FunctionView {
        FunctionView {
            name: name_view(self.name),
            parameters: names_view(self.parameters@),
            body_start: self.body_start,
            body_size: self.body_size,
            environment: self.environment,
        }
    }
}

impl View for Class {
    type V = ClassView;

    open spec fn view(&self) -> ClassView {
        ClassView {
            name: self.name@,
            parent: self.parent,
            traits: self.traits@,
            methods: self.methods@,
            properties: self.properties@,
        }
    }
}

impl View for NyarTrait {
    type V = TraitView;

    open spec fn view(&self) -> TraitView {
        TraitView {
            name: self.name@,
            methods: Seq::new(self.methods@.len(), |i: int| self.methods@[i]@),
        }
    }
}

impl View for Enum {
    type V = EnumView;

    open spec fn view(&self) -> EnumView {
        EnumView { name: self.name@, variants: self.variants@ }
    }
}

impl View for Coroutine {
    type V = CoroutineView;

    open spec fn view(&self) -> CoroutineView {
        CoroutineView {
            state: self.state,
            function: self.function,
            context: self.context@,
            result: self.result,
        }
    }
}

impl View for EffectHandler {
    type V = HandlerView;

    open spec fn view(&self) -> HandlerView {
        HandlerView {
            name: self.name@,
            handler: self.handler,
            install_depth: self.install_depth,
            resume_point: context_view(self.resume_point),
        }
    }
}

impl View for Value {
    type V = ValueView;

    open spec fn view(&self) -> ValueView {
        match *self {
            Value::Null => ValueView::Null,
            Value::Boolean(b) => ValueView::Boolean(b),
            Value::Integer(n) => ValueView::Integer(n),
            Value::String(s) => ValueView::String(s@),
            Value::Vector(v) => ValueView::Vector(v@),
            Value::Object(o) => ValueView::Object(o@),
            Value::Function(f) => ValueView::Function(f@),
            Value::Class(c) => ValueView::Class(c@),
            Value::Trait(t) => ValueView::Trait(t@),
            Value::Enum(e) => ValueView::Enum(e@),
            Value::Coroutine(c) => ValueView::Coroutine(c@),
            Value::Handler(h) => ValueView::Handler(h@),
        }
    }
}

impl ValueView {
    /// The handles a value holds, in a fixed order. Primitives, integers,
    /// strings and traits hold none.
    pub open spec fn handles(self) -> Seq<usize> {
        match self {
            ValueView::Vector(v) => v,
            ValueView::Object(o) => entry_values(o),
            ValueView::Function(f) => seq![f.environment],
            ValueView::Class(c) => option_handles(c.parent) + c.traits + entry_values(c.methods)
                + entry_values(c.properties),
            ValueView::Enum(e) => entry_values(e.variants),
            ValueView::Coroutine(c) => seq![c.function] + c.context.handles() + option_handles(
                c.result,
            ),
            ValueView::Handler(h) => seq![h.handler] + context_handles(h.resume_point),
            _ => Seq::<usize>::empty(),
        }
    }

    /// The value with every handle forwarded and nothing else changed.
    pub open spec fn forwarded(self, table: Seq<usize>) -> ValueView {
        match self {
            ValueView::Vector(v) => ValueView::Vector(forward_all(table, v)),
            ValueView::Object(o) => ValueView::Object(entries_forwarded(o, table)),
            ValueView::Function(f) => ValueView::Function(
                FunctionView { environment: forward(table, f.environment), ..f },
            ),
            ValueView::Class(c) => ValueView::Class(
                ClassView {
                    parent: option_forwarded(c.parent, table),
                    traits: forward_all(table, c.traits),
                    methods: entries_forwarded(c.methods, table),
                    properties: entries_forwarded(c.properties, table),
                    ..c
                },
            ),
            ValueView::Enum(e) => ValueView::Enum(
                EnumView { variants: entries_forwarded(e.variants, table), ..e },
            ),
            ValueView::Coroutine(c) => ValueView::Coroutine(
                CoroutineView {
                    function: forward(table, c.function),
                    context: c.context.forwarded(table),
                    result: option_forwarded(c.result, table),
                    ..c
                },
            ),
            ValueView::Handler(h) => ValueView::Handler(
                HandlerView {
                    handler: forward(table, h.handler),
                    resume_point: context_forwarded(h.resume_point, table),
                    ..h
                },
            ),
            v => v,
        }
    }

    /// The type tag.
    pub open spec fn value_type(self) -> ValueType {
        match self {
            ValueView::Null => ValueType::Null,
            ValueView::Boolean(_) => ValueType::Boolean,
            ValueView::Integer(_) => ValueType::Integer,
            ValueView::String(_) => ValueType::String,
            ValueView::Vector(_) => ValueType::Array,
            ValueView::Object(_) => ValueType::Object,
            ValueView::Function(_) => ValueType::Function,
            ValueView::Class(_) => ValueType::Class,
            ValueView::Trait(_) => ValueType::Trait,
            ValueView::Enum(_) => ValueType::Enum,
            ValueView::Coroutine(_) => ValueType::Coroutine,
            ValueView::Handler(_) => ValueType::Handler,
        }
    }

    /// Null and the boolean false are falsy; every other value is truthy.
    pub open spec fn truthy(self) -> bool {
        match self {
            ValueView::Null => false,
            ValueView::Boolean(b) => b,
            _ => true,
        }
    }

    /// The handles of a forwarded value are the forwarded handles of the
    /// value, in the same order.
    pub proof fn lemma_forwarded_handles(self, table: Seq<usize>)
        ensures
            self.forwarded(table).handles() == forward_all(table, self.handles()),
    {
        match self {
            ValueView::Vector(v) => {},
            ValueView::Object(o) => {
                assert(entry_values(entries_forwarded(o, table)) =~= forward_all(
                    table,
                    entry_values(o),
                ));
            },
            ValueView::Function(f) => {
                assert(seq![forward(table, f.environment)] =~= forward_all(
                    table,
                    seq![f.environment],
                ));
            },
            ValueView::Class(c) => {
                let a = option_handles(c.parent);
                let b = c.traits;
                let m = entry_values(c.methods);
                let p = entry_values(c.properties);
                assert(option_handles(option_forwarded(c.parent, table)) =~= forward_all(
                    table,
                    a,
                ));
                assert(entry_values(entries_forwarded(c.methods, table)) =~= forward_all(
                    table,
                    m,
                ));
                assert(entry_values(entries_forwarded(c.properties, table)) =~= forward_all(
                    table,
                    p,
                ));
                lemma_forward_all_concat(table, a, b);
                lemma_forward_all_concat(table, a + b, m);
                lemma_forward_all_concat(table, a + b + m, p);
            },
            ValueView::Enum(e) => {
                assert(entry_values(entries_forwarded(e.variants, table)) =~= forward_all(
                    table,
                    entry_values(e.variants),
                ));
            },
            ValueView::Coroutine(c) => {
                let a = seq![c.function];
                let b = c.context.handles();
                let r = option_handles(c.result);
                assert(seq![forward(table, c.function)] =~= forward_all(table, a));
                assert(option_handles(option_forwarded(c.result, table)) =~= forward_all(
                    table,
                    r,
                ));
                c.context.lemma_forwarded_handles(table);
                lemma_forward_all_concat(table, a, b);
                lemma_forward_all_concat(table, a + b, r);
            },
            ValueView::Handler(h) => {
                let a = seq![h.handler];
                let b = context_handles(h.resume_point);
                assert(seq![forward(table, h.handler)] =~= forward_all(table, a));
                match h.resume_point {
                    Some(ctx) => {
                        ctx.lemma_forwarded_handles(table);
                    },
                    None => {
                        assert(forward_all(table, b) =~= b);
                    },
                }
                lemma_forward_all_concat(table, a, b);
            },
            _ => {
                assert(forward_all(table, Seq::<usize>::empty()) =~= Seq::<usize>::empty());
            },
        }
    }
}

/// The name of a type tag.
pub open spec fn type_name_of(t: ValueType) -> Seq<char> {
    match t {
        ValueType::Null => "null"@,
        ValueType::Boolean => "boolean"@,
        ValueType::Integer => "bigint"@,
        ValueType::String => "string"@,
        ValueType::Array => "array"@,
        ValueType::Object => "object"@,
        ValueType::Function => "function"@,
        ValueType::Class => "class"@,
        ValueType::Trait => "trait"@,
        ValueType::Enum => "enum"@,
        ValueType::Coroutine => "coroutine"@,
        ValueType::Handler => "handler"@,
    }
}

impl ValueType {
    /// The name under which errors report the type.
    pub fn name(&self) -> (r: &'static str)
        ensures
            r@ == type_name_of(*self),
    {
        match self {
            ValueType::Null => "null",
            ValueType::Boolean => "boolean",
            ValueType::Integer => "bigint",
            ValueType::String => "string",
            ValueType::Array => "array",
            ValueType::Object => "object",
            ValueType::Function => "function",
            ValueType::Class => "class",
            ValueType::Trait => "trait",
            ValueType::Enum => "enum",
            ValueType::Coroutine => "coroutine",
            ValueType::Handler => "handler",
        }
    }
}

/// The error for a value of type `found` where `expected` was required.
pub open spec fn mismatch(expected: ValueType, found: ValueType) -> crate::error::ErrorView {
    crate::error::ErrorView::TypeMismatch {
        expected: type_name_of(expected),
        found: type_name_of(found),
    }
}

impl Value {
    /// The type tag of the value.
    pub fn get_type(&self) -> (r: ValueType)
        ensures
            r == self@.value_type(),
    {
        match self {
            Value::Null => ValueType::Null,
            Value::Boolean(_) => ValueType::Boolean,
            Value::Integer(_) => ValueType::Integer,
            Value::String(_) => ValueType::String,
            Value::Vector(_) => ValueType::Array,
            Value::Object(_) => ValueType::Object,
            Value::Function(_) => ValueType::Function,
            Value::Class(_) => ValueType::Class,
            Value::Trait(_) => ValueType::Trait,
            Value::Enum(_) => ValueType::Enum,
            Value::Coroutine(_) => ValueType::Coroutine,
            Value::Handler(_) => ValueType::Handler,
        }
    }

    /// The name of the value's type.
    pub fn name_of_type(&self) -> (r: &'static str)
        ensures
            r@ == type_name_of(self@.value_type()),
    {
        self.get_type().name()
    }

    /// Whether the value is null.
    pub fn is_null(&self) -> (r: bool)
        ensures
            r == (self@ == ValueView::Null),
    {
        match self {
            Value::Null => true,
            _ => false,
        }
    }

    /// Whether the value counts as true in a condition.
    pub fn is_truthy(&self) -> (r: bool)
        ensures
            r == self@.truthy(),
    {
        match self {
            Value::Null => false,
            Value::Boolean(b) => *b,
            _ => true,
        }
    }

    /// The error that reports this value where an `expected` was required.
    pub fn type_mismatch(&self, expected: ValueType) -> (r: VmError)
        ensures
            r@ == mismatch(expected, self@.value_type()),
    {
        VmError::TypeMismatch { expected: expected.name(), found: self.name_of_type() }
    }

    /// The boolean, or a type mismatch.
    pub fn as_boolean(&self) -> (r: Result<bool, VmError>)
        ensures
            match self@ {
                ValueView::Boolean(b) => r == Ok::<bool, VmError>(b),
                v => r.is_err() && r.unwrap_err()@ == mismatch(ValueType::Boolean, v.value_type()),
            },
    {
        match self {
            Value::Boolean(b) => Ok(*b),
            _ => Err(self.type_mismatch(ValueType::Boolean)),
        }
    }

    /// The integer, or a type mismatch.
    pub fn as_integer(&self) -> (r: Result<&BigInt, VmError>)
        ensures
            match self@ {
                ValueView::Integer(n) => r.is_ok() && *r.unwrap() == n,
                v => r.is_err() && r.unwrap_err()@ == mismatch(ValueType::Integer, v.value_type()),
            },
    {
        match self {
            Value::Integer(n) => Ok(n),
            _ => Err(self.type_mismatch(ValueType::Integer)),
        }
    }

    /// The string, or a type mismatch.
    pub fn as_string(&self) -> (r: Result<&String, VmError>)
        ensures
            match self@ {
                ValueView::String(s) => r.is_ok() && r.unwrap()@ == s,
                v => r.is_err() && r.unwrap_err()@ == mismatch(ValueType::String, v.value_type()),
            },
    {
        match self {
            Value::String(s) => Ok(s),
            _ => Err(self.type_mismatch(ValueType::String)),
        }
    }

    /// The vector, or a type mismatch.
    pub fn as_vector(&self) -> (r: Result<&Vec<usize>, VmError>)
        ensures
            match self@ {
                ValueView::Vector(v) => r.is_ok() && r.unwrap()@ == v,
                v => r.is_err() && r.unwrap_err()@ == mismatch(ValueType::Array, v.value_type()),
            },
    {
        match self {
            Value::Vector(v) => Ok(v),
            _ => Err(self.type_mismatch(ValueType::Array)),
        }
    }

    /// The object, or a type mismatch.
    pub fn as_object(&self) -> (r: Result<&NyarObject, VmError>)
        ensures
            match self@ {
                ValueView::Object(o) => r.is_ok() && r.unwrap()@ == o,
                v => r.is_err() && r.unwrap_err()@ == mismatch(ValueType::Object, v.value_type()),
            },
    {
        match self {
            Value::Object(o) => Ok(o),
            _ => Err(self.type_mismatch(ValueType::Object)),
        }
    }

    /// The function record, or a type mismatch.
    pub fn as_function(&self) -> (r: Result<&Function, VmError>)
        ensures
            match self@ {
                ValueView::Function(f) => r.is_ok() && r.unwrap()@ == f,
                v => r.is_err() && r.unwrap_err()@ == mismatch(
                    ValueType::Function,
                    v.value_type(),
                ),
            },
    {
        match self {
            Value::Function(f) => Ok(f),
            _ => Err(self.type_mismatch(ValueType::Function)),
        }
    }

    /// The class declaration, or a type mismatch.
    pub fn as_class(&self) -> (r: Result<&Class, VmError>)
        ensures
            match self@ {
                ValueView::Class(c) => r.is_ok() && r.unwrap()@ == c,
                v => r.is_err() && r.unwrap_err()@ == mismatch(ValueType::Class, v.value_type()),
            },
    {
        match self {
            Value::Class(c) => Ok(c),
            _ => Err(self.type_mismatch(ValueType::Class)),
        }
    }

    /// The trait declaration, or a type mismatch.
    pub fn as_trait(&self) -> (r: Result<&NyarTrait, VmError>)
        ensures
            match self@ {
                ValueView::Trait(t) => r.is_ok() && r.unwrap()@ == t,
                v => r.is_err() && r.unwrap_err()@ == mismatch(ValueType::Trait, v.value_type()),
            },
    {
        match self {
            Value::Trait(t) => Ok(t),
            _ => Err(self.type_mismatch(ValueType::Trait)),
        }
    }

    /// The enum declaration, or a type mismatch.
    pub fn as_enum(&self) -> (r: Result<&Enum, VmError>)
        ensures
            match self@ {
                ValueView::Enum(e) => r.is_ok() && r.unwrap()@ == e,
                v => r.is_err() && r.unwrap_err()@ == mismatch(ValueType::Enum, v.value_type()),
            },
    {
        match self {
            Value::Enum(e) => Ok(e),
            _ => Err(self.type_mismatch(ValueType::Enum)),
        }
    }

    /// The coroutine record, or a type mismatch.
    pub fn as_coroutine(&self) -> (r: Result<&Coroutine, VmError>)
        ensures
            match self@ {
                ValueView::Coroutine(c) => r.is_ok() && r.unwrap()@ == c,
                v => r.is_err() && r.unwrap_err()@ == mismatch(
                    ValueType::Coroutine,
                    v.value_type(),
                ),
            },
    {
        match self {
            Value::Coroutine(c) => Ok(c),
            _ => Err(self.type_mismatch(ValueType::Coroutine)),
        }
    }

    /// The handler record, or a type mismatch.
    pub fn as_handler(&self) -> (r: Result<&EffectHandler, VmError>)
        ensures
            match self@ {
                ValueView::Handler(h) => r.is_ok() && r.unwrap()@ == h,
                v => r.is_err() && r.unwrap_err()@ == mismatch(ValueType::Handler, v.value_type()),
            },
    {
        match self {
            Value::Handler(h) => Ok(h),
            _ => Err(self.type_mismatch(ValueType::Handler)),
        }
    }

    /// Appends the handles the value holds to `out`.
    pub fn trace(&self, out: &mut Vec<usize>)
        ensures
            final(out)@ == old(out)@ + self@.handles(),
    {
        match self {
            Value::Vector(v) => {
                append_handles(out, v);
            },
            Value::Object(o) => {
                let values = o.values();
                append_handles(out, &values);
            },
            Value::Function(f) => {
                out.push(f.environment);
                assert(out@ =~= old(out)@ + self@.handles());
            },
            Value::Class(c) => {
                match c.parent {
                    Some(p) => {
                        out.push(p);
                    },
                    None => {},
                }
                assert(out@ =~= old(out)@ + option_handles(c.parent));
                append_handles(out, &c.traits);
                let methods = c.methods.values();
                append_handles(out, &methods);
                let properties = c.properties.values();
                append_handles(out, &properties);
                assert(out@ =~= old(out)@ + self@.handles());
            },
            Value::Enum(e) => {
                let variants = e.variants.values();
                append_handles(out, &variants);
            },
            Value::Coroutine(c) => {
                out.push(c.function);
                c.context.trace(out);
                match c.result {
                    Some(r) => {
                        out.push(r);
                    },
                    None => {},
                }
                assert(out@ =~= old(out)@ + self@.handles());
            },
            Value::Handler(h) => {
                out.push(h.handler);
                match &h.resume_point {
                    Some(ctx) => {
                        ctx.trace(out);
                    },
                    None => {},
                }
                assert(out@ =~= old(out)@ + self@.handles());
            },
            _ => {
                assert(out@ =~= old(out)@ + self@.handles());
            },
        }
    }

    /// Rewrites every handle the value holds through the table.
    pub fn rewrite(&mut self, table: &Vec<usize>)
        ensures
            final(self)@ == old(self)@.forwarded(table@),
    {
        match self {
            Value::Vector(v) => {
                forward_handles(table, v);
            },
            Value::Object(o) => {
                o.rewrite(table);
            },
            Value::Function(f) => {
                f.environment = forward_handle(table, f.environment);
            },
            Value::Class(c) => {
                c.parent = match c.parent {
                    Some(p) => Some(forward_handle(table, p)),
                    None => None,
                };
                forward_handles(table, &mut c.traits);
                c.methods.rewrite(table);
                c.properties.rewrite(table);
            },
            Value::Enum(e) => {
                e.variants.rewrite(table);
            },
            Value::Coroutine(c) => {
                c.function = forward_handle(table, c.function);
                c.context.rewrite(table);
                c.result = match c.result {
                    Some(r) => Some(forward_handle(table, r)),
                    None => None,
                };
            },
            Value::Handler(h) => {
                h.handler = forward_handle(table, h.handler);
                match &mut h.resume_point {
                    Some(ctx) => {
                        ctx.rewrite(table);
                    },
                    None => {},
                }
            },
            _ => {},
        }
    }
}

/// A copy of a list of names.
pub fn copy_names(names: &Vec<String>) -> (r: Vec<String>)
    ensures
        names_view(r@) == names_view(names@),
{
    let n = names.len();
    let mut out: Vec<String> = Vec::new();
    let mut i: usize = 0;
    while i < n
        invariant
            n == names@.len(),
            i <= n,
            out@.len() == i,
            forall|j: int| 0 <= j < i ==> out@[j]@ == names@[j]@,
        decreases n - i,
    {
        out.push(names[i].clone());
        i = i + 1;
    }
    assert(names_view(out@) =~= names_view(names@));
    out
}

impl MethodSignature {
    /// A copy of the signature.
    pub fn duplicate(&self) -> (r: Self)
        ensures
            r@ == self@,
    {
        MethodSignature {
            name: self.name.clone(),
            parameter_types: copy_names(&self.parameter_types),
            return_type: self.return_type.clone(),
        }
    }
}

impl Value {
    /// A copy of the value. The copy holds the same handles: what they
    /// name is shared, not copied.
    pub fn duplicate(&self) -> (r: Self)
        ensures
            r@ == self@,
    {
        match self {
            Value::Null => Value::Null,
            Value::Boolean(b) => Value::Boolean(*b),
            Value::Integer(n) => Value::Integer(integer_clone(n)),
            Value::String(s) => Value::String(s.clone()),
            Value::Vector(v) => Value::Vector(crate::context::copy_handles(v)),
            Value::Object(o) => Value::Object(o.duplicate()),
            Value::Function(f) => Value::Function(
                Function {
                    name: match &f.name {
                        Some(s) => Some(s.clone()),
                        None => None,
                    },
                    parameters: copy_names(&f.parameters),
                    body_start: f.body_start,
                    body_size: f.body_size,
                    environment: f.environment,
                },
            ),
            Value::Class(c) => Value::Class(
                Class {
                    name: c.name.clone(),
                    parent: c.parent,
                    traits: crate::context::copy_handles(&c.traits),
                    methods: c.methods.duplicate(),
                    properties: c.properties.duplicate(),
                },
            ),
            Value::Trait(t) => {
                let n = t.methods.len();
                let mut methods: Vec<MethodSignature> = Vec::new();
                let mut i: usize = 0;
                while i < n
                    invariant
                        n == t.methods@.len(),
                        i <= n,
                        methods@.len() == i,
                        forall|j: int| 0 <= j < i ==> methods@[j]@ == t.methods@[j]@,
                    decreases n - i,
                {
                    methods.push(t.methods[i].duplicate());
                    i = i + 1;
                }
                let copy = NyarTrait { name: t.name.clone(), methods };
                assert(copy@.methods =~= t@.methods);
                Value::Trait(copy)
            },
            Value::Enum(e) => Value::Enum(
                Enum { name: e.name.clone(), variants: e.variants.duplicate() },
            ),
            Value::Coroutine(c) => Value::Coroutine(
                Coroutine {
                    state: c.state,
                    function: c.function,
                    context: c.context.duplicate(),
                    result: c.result,
                },
            ),
            Value::Handler(h) => Value::Handler(
                EffectHandler {
                    name: h.name.clone(),
                    handler: h.handler,
                    install_depth: h.install_depth,
                    resume_point: match &h.resume_point {
                        Some(c) => Some(c.duplicate()),
                        None => None,
                    },
                },
            ),
        }
    }
}

/// Turns constants into the values that the heap holds.
#[derive(Debug)]
pub struct ValueHandler {}

impl ValueHandler {
    /// A handler.
    pub fn new() -> (r: Self)
        ensures
            r == (ValueHandler {  }),
    {
        ValueHandler {  }
    }

    /// The value that a constant stands for; none for a reference, which
    /// stands for a value that exists already.
    pub fn materialize(&self, constant: &crate::instruction::ConstantValue) -> (r: Option<Value>)
        ensures
            match *constant {
                crate::instruction::ConstantValue::Reference(_) => r.is_none(),
                crate::instruction::ConstantValue::Null => r.is_some() && r.unwrap()@
                    == ValueView::Null,
                crate::instruction::ConstantValue::Boolean(b) => r.is_some() && r.unwrap()@
                    == ValueView::Boolean(b),
                crate::instruction::ConstantValue::Integer(n) => r.is_some() && r.unwrap()@
                    == ValueView::Integer(n),
                crate::instruction::ConstantValue::String(s) => r.is_some() && r.unwrap()@
                    == ValueView::String(s@),
            },
    {
        match constant {
            crate::instruction::ConstantValue::Reference(_) => None,
            crate::instruction::ConstantValue::Null => Some(Value::Null),
            crate::instruction::ConstantValue::Boolean(b) => Some(Value::Boolean(*b)),
            crate::instruction::ConstantValue::Integer(n) => Some(Value::Integer(integer_clone(n))),
            crate::instruction::ConstantValue::String(s) => Some(Value::String(s.clone())),
        }
    }
}

} // verus!
