//! The errors of every phase.

use vstd::prelude::*;
use crate::literal::LiteralValue;
use crate::token::{SourcePosition, Token, TokenType};

verus! {

#[derive(Clone, Copy, Debug)]
pub enum RuntimeError {
    /// Not an error: how a `return` statement hands its value to the call.
    ReturnValue(LiteralValue),
    /// A `return` outside any function; with a note.
    TopLevelReturn(Token, &'static str),
    /// A `return` with a value in an initializer; with a note.
    ValueReturnFromInitializer(Token, &'static str),
    /// An unexpected character or an unterminated string.
    ScanError { location: SourcePosition },
    /// A token other than the expected one.
    ParseError { token: Token, expected: TokenType, message: &'static str },
    /// A name declared twice in one scope; with a note.
    DuplicateDeclaration(Token, &'static str),
    /// An assignment to what is no variable or property; with a note.
    InvalidAssignmentTarget(Token, &'static str),
    ExpectedExpression(Token),
    /// More than 255 arguments or parameters.
    TooManyArguments(Token),
    /// A call of what is neither function nor class.
    NotACallable(Token),
    /// A call with the wrong number of arguments: expected, then given.
    InvalidArity(Token, usize, usize),
    /// A property of what is no instance; with a note.
    InvalidPropertyAccess(Token, &'static str),
    UndefinedProperty(Token),
    UndefinedVariable(Token),
    /// An undefined variable known by the symbol of its name only.
    UndefinedVariableName(usize),
    /// `this` outside a class; with a note.
    NonClassThis(Token, &'static str),
    /// A class that names itself as its superclass.
    RecursiveClass(Token),
    /// A superclass that is no class.
    NotAClassBase(Token),
    /// `super` outside a subclass; with a note.
    InvalidSuper(Token, &'static str),
    /// A byte of a chunk that is no operation code.
    UnknownOpcode(u8),
    GenericError,
    ClockBackwards,
    /// The environment chain does not have the shape that resolution
    /// promised: a defect of the implementation, not of the program.
    EnvironmentError(&'static str),
}

} // verus!
