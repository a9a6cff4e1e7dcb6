//! Execution engine of the Nyar virtual machine: a compacting heap with
//! index-typed handles, a stack-machine interpreter, one-shot coroutines and
//! algebraic-effect handlers, each with its contract.
//!
//! The heap ([`heap`], [`gc`], [`reach`]) holds every value ([`value`],
//! [`object`]) in a cell that a handle ([`handle`]) names by index. The
//! machine ([`vm`], [`machine`]) runs instructions ([`instruction`]) on an
//! execution context ([`context`]); the instruction groups stand in
//! [`scope`], [`call`], [`create`], [`control`], [`coroutine`] and
//! [`effect`]. What holds of every run is proved in [`laws`], [`closed`] and
//! [`safety`]. Around the machine stand the compact instruction form
//! ([`lir`]) with its compiler ([`compiler`]), the tree of a front end
//! ([`ast`], [`lower`]), declarations ([`declare`]), the embedder's runtime
//! ([`runtime`]) and the errors ([`error`], [`text`]).

pub mod ast;
pub mod call;
pub mod closed;
pub mod compiler;
pub mod context;
pub mod control;
pub mod coroutine;
pub mod create;
pub mod declare;
pub mod effect;
pub mod error;
pub mod gc;
pub mod handle;
pub mod heap;
pub mod instruction;
pub mod laws;
pub mod lir;
pub mod lower;
pub mod machine;
pub mod object;
pub mod reach;
pub mod runtime;
pub mod safety;
pub mod scope;
pub mod text;
pub mod value;
pub mod vm;
