//! The syntax tree the compiler lowers.
//!
//! Only the node shapes the execution core consumes are modelled: literal
//! and local-slot operands, assignments, the binary operator families, and
//! the statements that carry them.

use vstd::prelude::*;
use crate::value::JsValue;

verus! {

/// An arithmetic binary operator.
#[derive(Clone, Copy, Debug, PartialEq, Eq, Structural)]
pub enum ArithmeticOp {
    /// `+`
    Add,
    /// `-`
    Sub,
    /// `/`
    Div,
    /// `*`
    Mul,
    /// `**`
    Exp,
    /// `%`
    Mod,
}

/// A bitwise binary operator.
#[derive(Clone, Copy, Debug, PartialEq, Eq, Structural)]
pub enum BitwiseOp {
    /// `&`
    And,
    /// `|`
    Or,
    /// `^`
    Xor,
    /// `<<`
    Shl,
    /// `>>`
    Shr,
    /// `>>>`
    UShr,
}

/// A relational or equality binary operator.
#[derive(Clone, Copy, Debug, PartialEq, Eq, Structural)]
pub enum RelationalOp {
    /// `==`
    Equal,
    /// `!=`
    NotEqual,
    /// `===`
    StrictEqual,
    /// `!==`
    StrictNotEqual,
    /// `>`
    GreaterThan,
    /// `>=`
    GreaterThanOrEqual,
    /// `<`
    LessThan,
    /// `<=`
    LessThanOrEqual,
    /// `in`
    In,
    /// `instanceof`
    InstanceOf,
}

/// A short-circuiting binary operator.
#[derive(Clone, Copy, Debug, PartialEq, Eq, Structural)]
pub enum LogicalOp {
    /// `&&`
    And,
    /// `||`
    Or,
    /// `??`
    Coalesce,
}

/// A binary operator, by family.
#[derive(Clone, Copy, Debug, PartialEq, Eq, Structural)]
pub enum BinaryOp {
    /// The arithmetic family.
    Arithmetic(ArithmeticOp),
    /// The bitwise family.
    Bitwise(BitwiseOp),
    /// The relational and equality family.
    Relational(RelationalOp),
    /// The short-circuiting family.
    Logical(LogicalOp),
    /// The comma operator.
    Comma,
}

/// An expression node.
#[derive(Debug)]
pub enum Expression {
    /// A literal value from the constant pool.
    Literal(JsValue),
    /// A read of a frame register holding a local binding.
    Local(u32),
    /// An assignment of a value to a local binding, yielding the value.
    Assign(u32, Box<Expression>),
    /// A binary expression.
    Binary(Box<Binary>),
    /// A private-name presence test.
    BinaryInPrivate(Box<BinaryInPrivate>),
}

/// A binary expression: an operator with its two operands.
#[derive(Debug)]
pub struct Binary {
    /// The operator.
    pub op: BinaryOp,
    /// The left operand.
    pub lhs: Expression,
    /// The right operand.
    pub rhs: Expression,
}

impl Binary {
    /// Creates a binary expression.
    pub fn new(op: BinaryOp, lhs: Expression, rhs: Expression) -> (r: Binary)
        ensures
            r.op_spec() == op,
            r.lhs_spec() == lhs,
            r.rhs_spec() == rhs,
    {
        Binary { op, lhs, rhs }
    }

    /// The operator.
    pub open spec fn op_spec(&self) -> BinaryOp {
        self.op
    }

    /// The left operand.
    pub open spec fn lhs_spec(&self) -> Expression {
        self.lhs
    }

    /// The right operand.
    pub open spec fn rhs_spec(&self) -> Expression {
        self.rhs
    }

    /// The operator.
    #[verifier::when_used_as_spec(op_spec)]
    pub fn op(&self) -> (r: BinaryOp)
        ensures
            r == self.op_spec(),
    {
        self.op
    }

    /// The left operand.
    pub fn lhs(&self) -> (r: &Expression)
        ensures
            *r == self.lhs_spec(),
    {
        &self.lhs
    }

    /// The right operand.
    pub fn rhs(&self) -> (r: &Expression)
        ensures
            *r == self.rhs_spec(),
    {
        &self.rhs
    }
}

/// A private-name presence test: `#name in object`.
#[derive(Debug)]
pub struct BinaryInPrivate {
    /// The private name's spelling.
    pub lhs: Vec<u16>,
    /// The object operand.
    pub rhs: Expression,
}

impl BinaryInPrivate {
    /// Creates a private-name presence test.
    pub fn new(lhs: Vec<u16>, rhs: Expression) -> (r: BinaryInPrivate)
        ensures
            r.lhs_spec()@ == lhs@,
            r.rhs_spec() == rhs,
    {
        BinaryInPrivate { lhs, rhs }
    }

    /// The private name's spelling.
    pub open spec fn lhs_spec(&self) -> Vec<u16> {
        self.lhs
    }

    /// The object operand.
    pub open spec fn rhs_spec(&self) -> Expression {
        self.rhs
    }

    /// The private name's spelling.
    pub fn lhs(&self) -> (r: &Vec<u16>)
        ensures
            *r == self.lhs_spec(),
    {
        &self.lhs
    }

    /// The object operand.
    pub fn rhs(&self) -> (r: &Expression)
        ensures
            *r == self.rhs_spec(),
    {
        &self.rhs
    }
}

/// A statement node.
#[derive(Debug)]
pub enum Statement {
    /// An expression whose value is discarded.
    Expression(Expression),
    /// A `do ... while` loop.
    DoWhileLoop(DoWhileLoop),
    /// The empty statement.
    Empty,
}

/// The `do...while` statement creates a loop that executes a specified
/// statement until the test condition evaluates to false.
///
/// The condition is evaluated after executing the statement, resulting in
/// the specified statement executing at least once.
#[derive(Debug)]
pub struct DoWhileLoop {
    /// The loop's body.
    pub body: Box<Statement>,
    /// The loop's condition.
    pub condition: Expression,
}

impl DoWhileLoop {
    /// The loop's body.
    pub open spec fn body_spec(&self) -> Statement {
        *self.body
    }

    /// The loop's condition.
    pub open spec fn cond_spec(&self) -> Expression {
        self.condition
    }

    /// The loop's body.
    pub fn body(&self) -> (r: &Statement)
        ensures
            *r == self.body_spec(),
    {
        &self.body
    }

    /// The loop's condition.
    pub fn cond(&self) -> (r: &Expression)
        ensures
            *r == self.cond_spec(),
    {
        &self.condition
    }

    /// Creates a `DoWhileLoop` AST node.
    pub fn new(body: Statement, condition: Expression) -> (r: DoWhileLoop)
        ensures
            r.body_spec() == body,
            r.cond_spec() == condition,
    {
        DoWhileLoop { body: Box::new(body), condition }
    }

    /// Whether the node mentions a local slot, anywhere in its body or
    /// condition.
    pub fn contains_local(&self, slot: u32) -> (r: bool)
        ensures
            r == (statement_mentions_local(self.body_spec(), slot) || expression_mentions_local(
                self.cond_spec(),
                slot,
            )),
    {
        statement_contains_local(&self.body, slot) || expression_contains_local(
            &self.condition,
            slot,
        )
    }
}

/// Whether every literal of an expression is a valid primitive value, as
/// the compiler's constant pool requires.
pub open spec fn expression_valid(e: Expression) -> bool
    decreases e,
{
    match e {
        Expression::Literal(v) => v.valid() && !(v@ is Obj),
        Expression::Local(_) => true,
        Expression::Assign(_, inner) => expression_valid(*inner),
        Expression::Binary(b) => expression_valid(b.lhs_spec()) && expression_valid(b.rhs_spec()),
        Expression::BinaryInPrivate(b) => expression_valid(b.rhs_spec()),
    }
}

/// Whether an expression mentions a local slot.
pub open spec fn expression_mentions_local(e: Expression, slot: u32) -> bool
    decreases e,
{
    match e {
        Expression::Literal(_) => false,
        Expression::Local(s) => s == slot,
        Expression::Assign(s, inner) => s == slot || expression_mentions_local(*inner, slot),
        Expression::Binary(b) => expression_mentions_local(b.lhs_spec(), slot)
            || expression_mentions_local(b.rhs_spec(), slot),
        Expression::BinaryInPrivate(b) => expression_mentions_local(b.rhs_spec(), slot),
    }
}

/// Whether a statement mentions a local slot.
pub open spec fn statement_mentions_local(s: Statement, slot: u32) -> bool
    decreases s,
{
    match s {
        Statement::Expression(e) => expression_mentions_local(e, slot),
        Statement::DoWhileLoop(l) => statement_mentions_local(l.body_spec(), slot)
            || expression_mentions_local(l.cond_spec(), slot),
        Statement::Empty => false,
    }
}

/// Whether an expression mentions a local slot.
pub fn expression_contains_local(e: &Expression, slot: u32) -> (r: bool)
    ensures
        r == expression_mentions_local(*e, slot),
    decreases *e,
{
    match *e {
        Expression::Literal(_) => false,
        Expression::Local(s) => s == slot,
        Expression::Assign(s, ref inner) => s == slot || expression_contains_local(inner, slot),
        Expression::Binary(ref b) => expression_contains_local(b.lhs(), slot)
            || expression_contains_local(b.rhs(), slot),
        Expression::BinaryInPrivate(ref b) => expression_contains_local(b.rhs(), slot),
    }
}

/// Whether a statement mentions a local slot.
pub fn statement_contains_local(s: &Statement, slot: u32) -> (r: bool)
    ensures
        r == statement_mentions_local(*s, slot),
    decreases *s,
{
    match *s {
        Statement::Expression(ref e) => expression_contains_local(e, slot),
        Statement::DoWhileLoop(ref l) => statement_contains_local(l.body(), slot)
            || expression_contains_local(l.cond(), slot),
        Statement::Empty => false,
    }
}

} // verus!
