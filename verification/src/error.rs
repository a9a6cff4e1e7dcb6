//! Errors surfaced by the heap and the interpreter.

use crate::text::{decimal, decimal_text};
use vstd::prelude::*;
use vstd::string::StringExecFns;

verus! {

/// What can go wrong while a program runs.
#[derive(Debug, Clone)]
pub enum VmError {
    /// A value of one type stood where another was required.
    TypeMismatch { expected: &'static str, found: &'static str },
    /// No scope on the environment chain binds the name.
    UndefinedVariable(String),
    /// The object has no property of that name.
    UndefinedProperty { object_type: &'static str, property: String },
    /// A vector was indexed past its end.
    IndexOutOfBounds { index: usize, length: usize },
    /// A handle held by the machine names a cell of the wrong kind.
    InvalidHandle(usize),
    /// A handle names a dead cell or no cell at all.
    UseAfterFree(usize),
    /// A value that is not a function was called.
    NotCallable(&'static str),
    /// A function was called with the wrong number of arguments.
    ArgumentCountMismatch { expected: usize, found: usize },
    /// No handler on the chain handles the effect.
    UnhandledEffect(String),
    /// A jump leaves the code.
    InvalidJumpTarget,
    /// No enclosing loop carries the label.
    InvalidLabel(String),
    /// The value stack or the call stack grew past its limit.
    StackOverflow,
    /// An instruction needed more values than the stack holds.
    StackUnderflow,
    /// A coroutine or a continuation was used against its state machine.
    CoroutineError(String),
    /// Any other failure at run time.
    RuntimeError(String),
}

/// The mathematical content of a [`VmError`].
pub enum ErrorView {
    TypeMismatch { expected: Seq<char>, found: Seq<char> },
    UndefinedVariable(Seq<char>),
    UndefinedProperty { object_type: Seq<char>, property: Seq<char> },
    IndexOutOfBounds { index: usize, length: usize },
    InvalidHandle(usize),
    UseAfterFree(usize),
    NotCallable(Seq<char>),
    ArgumentCountMismatch { expected: usize, found: usize },
    UnhandledEffect(Seq<char>),
    InvalidJumpTarget,
    InvalidLabel(Seq<char>),
    StackOverflow,
    StackUnderflow,
    CoroutineError(Seq<char>),
    RuntimeError(Seq<char>),
}

impl View for VmError {
    type V = ErrorView;

    open spec fn view(&self) -> ErrorView {
        match *self {
            VmError::TypeMismatch { expected, found } => ErrorView::TypeMismatch {
                expected: expected@,
                found: found@,
            },
            VmError::UndefinedVariable(name) => ErrorView::UndefinedVariable(name@),
            VmError::UndefinedProperty { object_type, property } => ErrorView::UndefinedProperty {
                object_type: object_type@,
                property: property@,
            },
            VmError::IndexOutOfBounds { index, length } => ErrorView::IndexOutOfBounds {
                index,
                length,
            },
            VmError::InvalidHandle(index) => ErrorView::InvalidHandle(index),
            VmError::UseAfterFree(index) => ErrorView::UseAfterFree(index),
            VmError::NotCallable(found) => ErrorView::NotCallable(found@),
            VmError::ArgumentCountMismatch { expected, found } => ErrorView::ArgumentCountMismatch {
                expected,
                found,
            },
            VmError::UnhandledEffect(name) => ErrorView::UnhandledEffect(name@),
            VmError::InvalidJumpTarget => ErrorView::InvalidJumpTarget,
            VmError::InvalidLabel(name) => ErrorView::InvalidLabel(name@),
            VmError::StackOverflow => ErrorView::StackOverflow,
            VmError::StackUnderflow => ErrorView::StackUnderflow,
            VmError::CoroutineError(detail) => ErrorView::CoroutineError(detail@),
            VmError::RuntimeError(detail) => ErrorView::RuntimeError(detail@),
        }
    }
}

/// Errors of the surrounding tool chain.
#[derive(Debug, Clone)]
pub enum NyarErrorKind {
    /// Input in some format could not be read.
    Decode { format: String, message: String },
    /// A value could not be written in some format.
    Encode { format: String, message: String },
    /// A free-form failure.
    Custom { message: String },
    /// A handle was used after its cell was freed.
    UseAfterFree { address: usize },
}

/// The two ways a heap access can fail.
#[derive(Debug, Clone, Copy, PartialEq, Eq, Structural)]
pub enum HeapErrorKind {
    /// The cell was freed.
    DeadMemoryAccess,
    /// No cell has that address.
    InvalidMemoryAccess,
}

/// The message of an error.
pub open spec fn message_text(e: ErrorView) -> Seq<char> {
    match e {
        ErrorView::TypeMismatch { expected, found } => "类型不匹配: 期望 "@ + expected + ", 实际为 "@
            + found,
        ErrorView::UndefinedVariable(name) => "未定义的变量: "@ + name,
        ErrorView::UndefinedProperty { object_type, property } => "未定义的属性: "@ + object_type
            + " 上不存在属性 "@ + property,
        ErrorView::IndexOutOfBounds { index, length } => "索引越界: 索引 "@ + decimal_text(
            index as nat,
        ) + " 超出长度 "@ + decimal_text(length as nat),
        ErrorView::InvalidHandle(index) => "无效的GC索引: "@ + decimal_text(index as nat),
        ErrorView::UseAfterFree(index) => "访问已死亡对象: "@ + decimal_text(index as nat),
        ErrorView::NotCallable(found) => "不可调用: "@ + found + " 不是函数"@,
        ErrorView::ArgumentCountMismatch { expected, found } => "参数数量不匹配: 期望 "@
            + decimal_text(expected as nat) + ", 实际为 "@ + decimal_text(found as nat),
        ErrorView::UnhandledEffect(name) => "未处理的效应: "@ + name,
        ErrorView::InvalidJumpTarget => "无效的跳转目标"@,
        ErrorView::InvalidLabel(name) => "无效的标签: "@ + name,
        ErrorView::StackOverflow => "栈溢出"@,
        ErrorView::StackUnderflow => "栈下溢"@,
        ErrorView::CoroutineError(detail) => "协程错误: "@ + detail,
        ErrorView::RuntimeError(detail) => "运行时错误: "@ + detail,
    }
}

/// The message of a tool-chain error.
pub open spec fn kind_text(e: NyarErrorKind) -> Seq<char> {
    match e {
        NyarErrorKind::Decode { format, message } => "Decode error: "@ + format@ + ": "@ + message@,
        NyarErrorKind::Encode { format, message } => "Encode error: "@ + format@ + ": "@ + message@,
        NyarErrorKind::Custom { message } => "Custom error: "@ + message@,
        NyarErrorKind::UseAfterFree { address } => "Use after free error: "@ + decimal_text(
            address as nat,
        ),
    }
}

/// `head`, `first`, `middle` and `second`, one after the other.
fn four_parts(head: &str, first: &str, middle: &str, second: &str) -> (r: String)
    ensures
        r@ == head@ + first@ + middle@ + second@,
{
    head.to_owned().concat(first).concat(middle).concat(second)
}

impl NyarErrorKind {
    /// The message that describes the error.
    pub fn message(&self) -> (r: String)
        ensures
            r@ == kind_text(*self),
    {
        match self {
            NyarErrorKind::Decode { format, message } => four_parts(
                "Decode error: ",
                format.as_str(),
                ": ",
                message.as_str(),
            ),
            NyarErrorKind::Encode { format, message } => four_parts(
                "Encode error: ",
                format.as_str(),
                ": ",
                message.as_str(),
            ),
            NyarErrorKind::Custom { message } => "Custom error: ".to_owned().concat(
                message.as_str(),
            ),
            NyarErrorKind::UseAfterFree { address } => "Use after free error: ".to_owned().concat(
                decimal(*address).as_str(),
            ),
        }
    }
}

impl VmError {
    /// The message that describes the error.
    pub fn message(&self) -> (r: String)
        ensures
            r@ == message_text(self@),
    {
        match self {
            VmError::TypeMismatch { expected, found } => four_parts(
                "类型不匹配: 期望 ",
                expected,
                ", 实际为 ",
                found,
            ),
            VmError::UndefinedVariable(name) => "未定义的变量: ".to_owned().concat(name.as_str()),
            VmError::UndefinedProperty { object_type, property } => four_parts(
                "未定义的属性: ",
                object_type,
                " 上不存在属性 ",
                property.as_str(),
            ),
            VmError::IndexOutOfBounds { index, length } => four_parts(
                "索引越界: 索引 ",
                decimal(*index).as_str(),
                " 超出长度 ",
                decimal(*length).as_str(),
            ),
            VmError::InvalidHandle(index) => "无效的GC索引: ".to_owned().concat(
                decimal(*index).as_str(),
            ),
            VmError::UseAfterFree(index) => "访问已死亡对象: ".to_owned().concat(
                decimal(*index).as_str(),
            ),
            VmError::NotCallable(found) => "不可调用: ".to_owned().concat(found).concat(
                " 不是函数",
            ),
            VmError::ArgumentCountMismatch { expected, found } => four_parts(
                "参数数量不匹配: 期望 ",
                decimal(*expected).as_str(),
                ", 实际为 ",
                decimal(*found).as_str(),
            ),
            VmError::UnhandledEffect(name) => "未处理的效应: ".to_owned().concat(name.as_str()),
            VmError::InvalidJumpTarget => "无效的跳转目标".to_owned(),
            VmError::InvalidLabel(name) => "无效的标签: ".to_owned().concat(name.as_str()),
            VmError::StackOverflow => "栈溢出".to_owned(),
            VmError::StackUnderflow => "栈下溢".to_owned(),
            VmError::CoroutineError(detail) => "协程错误: ".to_owned().concat(detail.as_str()),
            VmError::RuntimeError(detail) => "运行时错误: ".to_owned().concat(detail.as_str()),
        }
    }

    /// A copy of the error.
    pub fn duplicate(&self) -> (r: VmError)
        ensures
            r@ == self@,
    {
        match self {
            VmError::TypeMismatch { expected, found } => VmError::TypeMismatch {
                expected: *expected,
                found: *found,
            },
            VmError::UndefinedVariable(name) => VmError::UndefinedVariable(name.clone()),
            VmError::UndefinedProperty { object_type, property } => VmError::UndefinedProperty {
                object_type: *object_type,
                property: property.clone(),
            },
            VmError::IndexOutOfBounds { index, length } => VmError::IndexOutOfBounds {
                index: *index,
                length: *length,
            },
            VmError::InvalidHandle(index) => VmError::InvalidHandle(*index),
            VmError::UseAfterFree(index) => VmError::UseAfterFree(*index),
            VmError::NotCallable(found) => VmError::NotCallable(*found),
            VmError::ArgumentCountMismatch { expected, found } => VmError::ArgumentCountMismatch {
                expected: *expected,
                found: *found,
            },
            VmError::UnhandledEffect(name) => VmError::UnhandledEffect(name.clone()),
            VmError::InvalidJumpTarget => VmError::InvalidJumpTarget,
            VmError::InvalidLabel(name) => VmError::InvalidLabel(name.clone()),
            VmError::StackOverflow => VmError::StackOverflow,
            VmError::StackUnderflow => VmError::StackUnderflow,
            VmError::CoroutineError(detail) => VmError::CoroutineError(detail.clone()),
            VmError::RuntimeError(detail) => VmError::RuntimeError(detail.clone()),
        }
    }

    /// The tool-chain error that stands for this error: a freed or missing
    /// cell keeps its address, every other error becomes a custom error
    /// carrying `message`.
    pub fn into_kind(self, message: String) -> (r: NyarErrorKind)
        ensures
            match self@ {
                ErrorView::UseAfterFree(index) => r == (NyarErrorKind::UseAfterFree {
                    address: index,
                }),
                _ => r == (NyarErrorKind::Custom { message }),
            },
    {
        match self {
            VmError::UseAfterFree(index) => NyarErrorKind::UseAfterFree { address: index },
            _ => NyarErrorKind::Custom { message },
        }
    }

    /// Which kind of heap failure this error reports, if it reports one.
    pub fn heap_kind(&self) -> (r: Option<HeapErrorKind>)
        ensures
            r == match self@ {
                ErrorView::UseAfterFree(_) => Some(HeapErrorKind::DeadMemoryAccess),
                ErrorView::InvalidHandle(_) => Some(HeapErrorKind::InvalidMemoryAccess),
                _ => None,
            },
    {
        match self {
            VmError::UseAfterFree(_) => Some(HeapErrorKind::DeadMemoryAccess),
            VmError::InvalidHandle(_) => Some(HeapErrorKind::InvalidMemoryAccess),
            _ => None,
        }
    }
}

} // verus!
