use vstd::prelude::*;

verus! {

/// The operators of the source language.
#[derive(PartialEq, Eq, Structural, Clone, Copy, Debug)]
pub enum Operation {
    Add,
    Subtract,
    Multiply,
    Divide,
    Modulo,
    GreaterThan,
    LessThan,
    GreaterThanOrEquals,
    LessThanOrEquals,
    CheckEquals,
    NotEquals,
    Negate,
    Not,
}

/// A node of a validated syntax tree whose `else if` chains are already
/// nested as if/else.
#[derive(Debug)]
pub enum ParserNode {
    NumberLiteral(i32),
    BoolLiteral(bool),
    Identifier(String),
    Operation(Box<ParserNode>, Box<ParserNode>, Operation),
    OpEquals { name: String, expr: Box<ParserNode>, op: Operation },
    VariableDeclaration { name: String, expr: Box<ParserNode> },
    VariableAssignment { name: String, expr: Box<ParserNode> },
    Program(Vec<ParserNode>),
    FunctionDeclaration { name: String, args: Vec<ParserNode>, body: Box<ParserNode> },
    FunctionCall { name: String, args: Vec<ParserNode> },
    Return(Option<Box<ParserNode>>),
    Block(Vec<ParserNode>),
    TypedIdentifier { name: String },
    Unary(Box<ParserNode>, Operation),
    If { cond: Box<ParserNode>, body: Box<ParserNode>, else_body: Option<Box<ParserNode>> },
    For {
        init: Box<ParserNode>,
        cond: Box<ParserNode>,
        step: Box<ParserNode>,
        body: Box<ParserNode>,
    },
    Break,
    CommandLiteral(String),
    StructDefinition { name: String },
}

/// A declared parameter of a function.
#[derive(Debug)]
pub struct ParamDef {
    pub name: String,
}

/// What the validator records of a declared function.
#[derive(Debug)]
pub struct FunctionSignature {
    pub name: String,
    pub params: Vec<ParamDef>,
    /// False where the return type is `none`.
    pub returns_value: bool,
}

pub struct SigModel {
    pub name: Seq<char>,
    pub params: Seq<Seq<char>>,
    pub returns_value: bool,
}

impl View for FunctionSignature {
    type V = SigModel;

    open spec fn view(&self) -> SigModel {
        SigModel {
            name: self.name@,
            params: self.params@.map_values(|p: ParamDef| p.name@),
            returns_value: self.returns_value,
        }
    }
}

/// `i` is the first index of a signature named `name`.
pub open spec fn first_signature(sigs: Seq<SigModel>, name: Seq<char>, i: int) -> bool {
    &&& 0 <= i < sigs.len()
    &&& sigs[i].name == name
    &&& forall|j: int| 0 <= j < i ==> sigs[j].name != name
}

/// The index of the first signature named `name`, if any.
pub open spec fn find_signature(sigs: Seq<SigModel>, name: Seq<char>) -> Option<int> {
    if exists|i: int| first_signature(sigs, name, i) {
        Some(choose|i: int| first_signature(sigs, name, i))
    } else {
        None
    }
}

} // verus!
