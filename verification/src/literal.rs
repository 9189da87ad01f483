//! Runtime values.
//!
//! Every value is a small `Copy` datum. Strings live in the interner and are
//! named by their symbol; functions, classes and instances live in the
//! evaluator's tables and are named by their handle. A number is carried as
//! the bit pattern of an IEEE-754 binary64; arithmetic on it belongs to the
//! host that drives the evaluator.

use vstd::prelude::*;

verus! {

/// A callable value, by the table it lives in.
#[derive(Clone, Copy, PartialEq, Eq, Structural, Debug)]
pub enum LochxCallable {
    /// Handle of a closure in the evaluator's function table.
    Function(usize),
    /// Index of a native function.
    NativeFunction(usize),
    /// Handle of a class in the evaluator's class table.
    Class(usize),
}

/// The dynamic type of the language.
#[derive(Clone, Copy, PartialEq, Eq, Structural, Debug)]
pub enum LiteralValue {
    /// A string, by its symbol in the interner.
    Str(usize),
    /// A number, by the bits of its binary64 representation.
    Num(u64),
    Nil,
    Bool(bool),
    Callable(LochxCallable),
    /// An instance, by its handle in the evaluator's instance table.
    Instance(usize),
}

impl LiteralValue {
    /// `nil` and `false` are falsy; every other value is truthy.
    pub open spec fn truthy(self) -> bool {
        match self {
            LiteralValue::Nil => false,
            LiteralValue::Bool(b) => b,
            _ => true,
        }
    }

    /// Truthiness of the value: `nil` and `false` are falsy, everything else
    /// (zero and the empty string included) is truthy.
    pub fn is_truthy(&self) -> (r: bool)
        ensures
            r == self.truthy(),
    {
        match self {
            LiteralValue::Nil => false,
            LiteralValue::Bool(b) => *b,
            _ => true,
        }
    }

    /// Two values have the same dynamic type.
    pub open spec fn same_type(self, other: LiteralValue) -> bool {
        match (self, other) {
            (LiteralValue::Str(_), LiteralValue::Str(_)) => true,
            (LiteralValue::Num(_), LiteralValue::Num(_)) => true,
            (LiteralValue::Nil, LiteralValue::Nil) => true,
            (LiteralValue::Bool(_), LiteralValue::Bool(_)) => true,
            (LiteralValue::Callable(_), LiteralValue::Callable(_)) => true,
            (LiteralValue::Instance(_), LiteralValue::Instance(_)) => true,
            _ => false,
        }
    }
}

impl Default for LiteralValue {
    fn default() -> (r: LiteralValue)
        ensures
            r == LiteralValue::Nil,
    {
        LiteralValue::Nil
    }
}

} // verus!
