//! An embeddable interpreter for a small shell-like command language.
//!
//! Source text is parsed into a tree of scopes, chains and calls
//! ([`ast`], [`parser`]), and the tree is evaluated against a
//! host-supplied executor capability that performs the real effect
//! of each external command ([`evaluator`]).  The meaning of a tree is
//! fixed by the specification functions in [`semantics`], and the laws
//! the interpreter obeys are proved in [`laws`].

pub mod ast;
pub mod semantics;
pub mod parser;
pub mod evaluator;
pub mod laws;

pub use ast::{Call, Chain, ChainElem, Expr, Func, Operator, Scope};
pub use semantics::{EchoExecutor, Executor, TraceExecutor};
pub use parser::{parse, SyntaxError};
pub use evaluator::{eval, eval_scope, BashError, NodeEvalCtx, EVAL_FUEL};
