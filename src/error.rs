use vstd::prelude::*;

verus! {

/// An error that the parser reported.
#[derive(Debug)]
pub struct ParseError {
    pub message: String,
}

/// An error that the validator reported.
#[derive(Debug)]
pub struct ValidationError {
    pub message: String,
}

/// A broken invariant of the code generator itself: input that a validated
/// syntax tree never holds.
#[derive(PartialEq, Eq, Structural, Clone, Copy, Debug)]
pub enum InternalError {
    /// A call or declaration of a function that has no signature.
    UnknownFunction,
    /// A statement outside any function.
    NoCurrentFunction,
    /// An expression outside any expression context.
    NoOpenExpression,
    /// An instruction stream whose operands do not match its operators.
    MalformedExpression,
    /// An operator that has no lowering in its position.
    UnsupportedOperation,
    /// A counter that would pass the largest value of its type.
    CounterOverflow,
}

#[derive(Debug)]
pub enum CompileError {
    Parse(ParseError),
    Validate(ValidationError),
    InvalidTypes,
    Internal(InternalError),
}

impl ParseError {
    pub fn duplicate(&self) -> (r: Self)
        ensures
            r == *self,
    {
        ParseError { message: self.message.clone() }
    }
}

impl ValidationError {
    pub fn duplicate(&self) -> (r: Self)
        ensures
            r == *self,
    {
        ValidationError { message: self.message.clone() }
    }
}

impl CompileError {
    pub fn parse_error(error: ParseError) -> (r: Self)
        ensures
            r == CompileError::Parse(error),
    {
        CompileError::Parse(error)
    }
}

} // verus!
