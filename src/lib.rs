//! Code generation for a small imperative language whose target is a
//! command-based runtime of named integer registers.
//!
//! - `ast`: the validated syntax tree and the function signatures it is
//!   lowered with;
//! - `location`, `action`: registers, function locations and the commands of
//!   the target, with the one-line text of each;
//! - `eval`: the evaluator that lowers a postfix expression to commands over
//!   temporary registers;
//! - `lowering`: the model of the lowering driver, node by node;
//! - `codegen`: the driver itself, verified against that model;
//! - `laws`: properties of the generated code.
use vstd::prelude::*;

pub mod action;
pub mod ast;
pub mod codegen;
pub mod error;
pub mod eval;
pub mod laws;
pub mod location;
pub mod lowering;
pub mod text;

verus! {

} // verus!
