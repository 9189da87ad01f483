//! A tree-walking implementation of a small dynamically typed scripting
//! language with first-class functions, closures and classes.
//!
//! A program goes through four phases:
//!
//! - [`scanner`] turns source text into tokens;
//! - [`parser`] turns tokens into statements, as [`grammar`] defines;
//! - [`resolver`] finds for every reference to a local variable how many
//!   scopes lie between it and its declaration, as [`resolution`] defines;
//! - [`interpreter`] evaluates the statements step by step, as [`machine`]
//!   defines.
//!
//! What each phase computes is defined by a function of plain values, and
//! the phase is proved to compute it. What the definitions have in common
//! with the language is stated and proved beside them: spans are correct
//! ([`scanner`]); expressions are read back from the tokens consumed
//! ([`reading`]) in the shape that precedence and associativity ask for
//! ([`precedence`]); parsing always goes forward ([`progress`]); resolution
//! is balanced and agrees with the chain of scope frames ([`resolution`],
//! [`environment`]); calls check their arity first, closures run in the
//! frame they captured, fields shadow methods ([`machine`]).
//!
//! Numbers are IEEE-754 doubles. The library carries them as bit patterns
//! and leaves arithmetic on them, their conversion from and to text, the
//! clock and the output to the host that steps the evaluator.
//!
//! [`chunk`], [`opcode`] and [`vm`] are the beginnings of a second back
//! end: bytecode, and the stack machine that runs it.

pub mod bindings;
pub mod callable;
pub mod chars;
pub mod chunk;
pub mod class;
pub mod environment;
pub mod error;
pub mod expr;
pub mod grammar;
pub mod interner;
pub mod interpreter;
pub mod list;
pub mod literal;
pub mod locals;
pub mod machine;
pub mod opcode;
pub mod parser;
pub mod precedence;
pub mod progress;
pub mod reading;
pub mod resolution;
pub mod resolver;
pub mod scanner;
pub mod scope;
pub mod source;
pub mod stmt;
pub mod tables;
pub mod token;
pub mod vm;
