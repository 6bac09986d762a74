use crate::error::FilePosition;
use vstd::prelude::*;

verus! {

/// Phase descriptor: one AST shape serves every compiler stage, and this
/// trait fixes, per stage, the concrete payload attached to each node kind.
pub trait Tag {
    /// Annotation carried by expressions whose runtime representation the
    /// bytecode compiler must know (resolved type after type checking).
    type TypeTag;

    /// Annotation on each statement of a program or block (source position
    /// before type checking, the statement's static type after).
    type StatementTag;

    /// Annotation on a declaration's declared type.
    type DeclareTag;

    /// How a variable is identified (name string before scope resolution,
    /// dense slot index after).
    type VariableID;

    /// How a string literal is identified (its content before the constant
    /// table is built, a dense table index after).
    type StringID;
}

/// A whole program: an ordered sequence of tagged statements.
pub struct Program<T: Tag> {
    pub statements: Vec<TaggedStatement<T>>,
}

/// One statement together with its per-phase annotation.
pub struct TaggedStatement<T: Tag> {
    pub tag: T::StatementTag,
    pub statement: Statement<T>,
}

impl<T: Tag> TaggedStatement<T> {
    pub fn new(tag: T::StatementTag, statement: Statement<T>) -> (r: Self)
        ensures
            r.tag == tag,
            r.statement == statement,
    {
        TaggedStatement { tag, statement }
    }
}

/// A statement: declaration, write/writeln (the `bool` is true for the
/// newline-appending form), break, continue, or a bare expression.
pub enum Statement<T: Tag> {
    Declare(T::DeclareTag, T::VariableID, Box<Expression<T>>),
    Write(T::TypeTag, bool, Box<Expression<T>>),
    Break,
    Continue,
    Expression(Box<Expression<T>>),
}

/// A surface-syntax type, as written in a declaration.
#[derive(Debug, Copy, Clone, PartialEq, Eq, Structural)]
pub enum Type {
    Int,
    String,
    Bool,
    Unit,
}

/// An ordered sequence of statements that, as a whole, is an expression:
/// its value is the last statement's value, or unit if it is empty.
pub struct Body<T: Tag> {
    pub statements: Vec<TaggedStatement<T>>,
}

/// The expression grammar's entry level: assignment or precedence chain.
pub enum Expression<T: Tag> {
    Assign(T::TypeTag, T::VariableID, Box<Expression<T>>),
    OrExp(Box<OrExp<T>>),
}

/// Logical-or level of the precedence chain.
pub enum OrExp<T: Tag> {
    Or(Box<AndExp<T>>, Box<OrExp<T>>),
    AndExp(Box<AndExp<T>>),
}

/// Logical-and level of the precedence chain.
pub enum AndExp<T: Tag> {
    And(Box<CompExp<T>>, Box<AndExp<T>>),
    CompExp(Box<CompExp<T>>),
}

/// Comparison level of the precedence chain.
pub enum CompExp<T: Tag> {
    Comp(CompOp<T>, Box<AddExp<T>>, Box<AddExp<T>>),
    AddExp(Box<AddExp<T>>),
}

/// A comparison operator. Equality and inequality carry the operands'
/// common type so the compiler can pick the string-specific instruction.
pub enum CompOp<T: Tag> {
    Leq,
    Lt,
    Eq(T::TypeTag),
    Neq(T::TypeTag),
    Gt,
    Geq,
}

/// Additive level of the precedence chain.
pub enum AddExp<T: Tag> {
    Add(AddOp<T>, Box<MulExp<T>>, Box<AddExp<T>>),
    MulExp(Box<MulExp<T>>),
}

/// An additive operator. `+` is overloaded, so it carries the operands'
/// type: integer addition or string concatenation.
pub enum AddOp<T: Tag> {
    Sum(T::TypeTag),
    Difference,
}

/// Multiplicative level of the precedence chain.
pub enum MulExp<T: Tag> {
    Mul(MulOp, Box<Unary<T>>, Box<MulExp<T>>),
    Unary(Box<Unary<T>>),
}

/// A multiplicative operator; these are monomorphic on integers.
#[derive(Debug, Copy, Clone, PartialEq, Eq, Structural)]
pub enum MulOp {
    Product,
    Quotient,
    Remainder,
}

/// Unary level of the precedence chain.
pub enum Unary<T: Tag> {
    Negate(Box<Unary<T>>),
    Not(Box<Unary<T>>),
    Primary(Box<Primary<T>>),
}

/// The innermost level: literals, variables, parenthesized expressions,
/// and the structured control constructs, which are expressions.
pub enum Primary<T: Tag> {
    Paren(Box<Expression<T>>),
    IntLit(i64),
    StringLit(T::StringID),
    BoolLit(bool),
    Variable(T::VariableID),
    IfExp(IfExp<T>),
    WhileExp(WhileExp<T>),
    Unit,
}

/// An `if`/`elif`/`else` construct. Every arm must produce the construct's
/// unifying type, recorded in `tag`; an absent `else` is an empty body.
pub struct IfExp<T: Tag> {
    pub tag: T::TypeTag,
    pub cond: Box<Expression<T>>,
    pub body: Body<T>,
    pub elifs: Vec<Elif<T>>,
    pub els: Body<T>,
}

/// One `elif` arm of an `if` construct.
pub struct Elif<T: Tag> {
    pub cond: Box<Expression<T>>,
    pub body: Body<T>,
}

/// A `while` loop. The loop itself is a unit-typed expression; `tag`
/// records the body's type.
pub struct WhileExp<T: Tag> {
    pub tag: T::TypeTag,
    pub cond: Box<Expression<T>>,
    pub body: Body<T>,
}

/// The parser's phase: statements carry source positions, variables and
/// string literals are identified by their text, and nothing is typed yet.
pub struct Parsed {}

impl Tag for Parsed {
    type TypeTag = ();

    type StatementTag = FilePosition;

    type DeclareTag = Type;

    type VariableID = String;

    type StringID = String;
}

} // verus!
