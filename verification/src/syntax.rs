//! The expression and statement tree that the compiler consumes. The
//! tree is handed in by an outside front end; only its shape matters
//! here.

use vstd::prelude::*;
use crate::lox_type::LoxType;

verus! {

/// A binary arithmetic operator.
#[derive(Clone, Copy, Debug)]
pub enum BinaryOp {
    Plus,
    Minus,
    Star,
    Slash,
}

/// A logical or comparison operator.
#[derive(Clone, Copy, Debug)]
pub enum LogicalOp {
    And,
    Or,
    EqualEqual,
    BangEqual,
    Greater,
    GreaterEqual,
    Less,
    LessEqual,
}

/// An expression node. `Unary` is the numeric/truthiness negation;
/// `Variable` reads a name, `Assign` writes one.
#[derive(Debug)]
pub enum Expr {
    Literal(LoxType),
    Grouping(Box<Expr>),
    Unary(Box<Expr>),
    Binary(Box<Expr>, BinaryOp, Box<Expr>),
    Logical(Box<Expr>, LogicalOp, Box<Expr>),
    Variable(String),
    Assign(String, Box<Expr>),
}

/// A statement node. `Variable` declares a name with an optional
/// initializer.
#[derive(Debug)]
pub enum Statement {
    Expression(Expr),
    Variable(String, Option<Expr>),
    Block(Vec<Statement>),
    If(Expr, Box<Statement>, Option<Box<Statement>>),
    While(Expr, Box<Statement>),
}

} // verus!
