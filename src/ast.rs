use crate::span::{Span, Spanned};
use crate::token::TokenType;
use lasso::Spur;
use vstd::prelude::*;

verus! {

/// An identifier: an interned symbol and where it was written.
pub type Identifier = Spanned<Spur>;

/// Statements, run in order.
pub type Block = Vec<Stmt>;

pub type Type = Spanned<TypeKind>;

/// The types a declaration can name.
#[derive(Debug, Clone, Copy, PartialEq, Eq)]
pub enum TypeKind {
    U64,
    F64,
    String,
    Bool,
}

pub type Item = Spanned<ItemKind>;

#[derive(Debug, Clone, PartialEq, Eq)]
pub enum ItemKind {
    /// A declaration skeleton: a name and typed arguments.
    Def { name: Identifier, args: Vec<DefArgument> },
}

#[derive(Debug, Clone, PartialEq, Eq)]
pub struct DefArgument {
    pub name: Identifier,
    pub ty: Type,
}

pub type Stmt = Spanned<StmtKind>;

#[derive(Debug, PartialEq, Eq)]
pub enum StmtKind {
    Let { name: Identifier, ty: Type, val: Expr },
    If { cond: Expr, then: Block, otherwise: Block },
    While { cond: Expr, block: Block },
    Loop(Block),
    Expr(Expr),
}

pub type Expr = Spanned<ExprKind>;

#[derive(Debug, PartialEq, Eq)]
pub enum ExprKind {
    Literal(Literal),
    Binary { left: Box<Expr>, op: BinaryOperation, right: Box<Expr> },
    Unary { op: UnaryOperation, expr: Box<Expr> },
    Call { name: Identifier, args: Vec<Expr> },
    Grouping(Box<Expr>),
    Variable(Identifier),
}

#[derive(Debug, Clone, PartialEq, Eq)]
pub enum Literal {
    Int(i64),
    String(String),
    Bool(bool),
}

#[derive(Debug, Clone, Copy, PartialEq, Eq, Structural)]
pub enum UnaryOperation {
    Not,
    Negate,
}

#[derive(Debug, Clone, Copy, PartialEq, Eq, Structural)]
pub enum BinaryOperation {
    Plus,
    Minus,
    Mul,
    Div,
    NotEqual,
    EqualEqual,
    Less,
    LessEqual,
    Greater,
    GreaterEqual,
}

/// The value of a literal, and of an evaluated expression.
pub enum ValueModel {
    Int(i64),
    Str(Seq<char>),
    Bool(bool),
}

/// The mathematical model of an expression: its shape, its literals and
/// the span of every node. Calls and variables are modelled by their span.
pub enum Tree {
    Lit(ValueModel, Span),
    Binary(Box<Tree>, BinaryOperation, Box<Tree>, Span),
    Unary(UnaryOperation, Box<Tree>, Span),
    Grouping(Box<Tree>, Span),
    Call(Span),
    Variable(Span),
}

pub open spec fn lit_model(l: Literal) -> ValueModel {
    match l {
        Literal::Int(x) => ValueModel::Int(x),
        Literal::String(s) => ValueModel::Str(s@),
        Literal::Bool(b) => ValueModel::Bool(b),
    }
}

/// The model of an expression.
pub open spec fn tree_of(e: Expr) -> Tree
    decreases e,
{
    match e.0 {
        ExprKind::Literal(l) => Tree::Lit(lit_model(l), e.1),
        ExprKind::Binary { left, op, right } => Tree::Binary(
            Box::new(tree_of(*left)),
            op,
            Box::new(tree_of(*right)),
            e.1,
        ),
        ExprKind::Unary { op, expr } => Tree::Unary(op, Box::new(tree_of(*expr)), e.1),
        ExprKind::Call { .. } => Tree::Call(e.1),
        ExprKind::Grouping(inner) => Tree::Grouping(Box::new(tree_of(*inner)), e.1),
        ExprKind::Variable(_) => Tree::Variable(e.1),
    }
}

pub open spec fn tree_span(t: Tree) -> Span {
    match t {
        Tree::Lit(_, s) => s,
        Tree::Binary(_, _, _, s) => s,
        Tree::Unary(_, _, s) => s,
        Tree::Grouping(_, s) => s,
        Tree::Call(s) => s,
        Tree::Variable(s) => s,
    }
}

/// The unary operation that a token kind stands for.
pub open spec fn unary_op_of(t: TokenType) -> Option<UnaryOperation> {
    match t {
        TokenType::Bang => Some(UnaryOperation::Not),
        TokenType::Minus => Some(UnaryOperation::Negate),
        _ => None,
    }
}

/// The binary operation that a token kind stands for.
pub open spec fn binary_op_of(t: TokenType) -> Option<BinaryOperation> {
    match t {
        TokenType::Plus => Some(BinaryOperation::Plus),
        TokenType::Minus => Some(BinaryOperation::Minus),
        TokenType::Star => Some(BinaryOperation::Mul),
        TokenType::Slash => Some(BinaryOperation::Div),
        TokenType::NotEqual => Some(BinaryOperation::NotEqual),
        TokenType::EqualEqual => Some(BinaryOperation::EqualEqual),
        TokenType::Less => Some(BinaryOperation::Less),
        TokenType::LessEqual => Some(BinaryOperation::LessEqual),
        TokenType::Greater => Some(BinaryOperation::Greater),
        TokenType::GreaterEqual => Some(BinaryOperation::GreaterEqual),
        _ => None,
    }
}

/// The precedence level of a binary operation, loosest first: equality,
/// comparison, addition, multiplication.
pub open spec fn op_level(op: BinaryOperation) -> nat {
    match op {
        BinaryOperation::NotEqual | BinaryOperation::EqualEqual => 0,
        BinaryOperation::Less | BinaryOperation::LessEqual | BinaryOperation::Greater
        | BinaryOperation::GreaterEqual => 1,
        BinaryOperation::Plus | BinaryOperation::Minus => 2,
        BinaryOperation::Mul | BinaryOperation::Div => 3,
    }
}

impl UnaryOperation {
    /// The operation that a prefix operator token stands for, if any.
    pub fn from_token(ty: TokenType) -> (r: Option<UnaryOperation>)
        ensures
            r == unary_op_of(ty),
    {
        match ty {
            TokenType::Bang => Some(UnaryOperation::Not),
            TokenType::Minus => Some(UnaryOperation::Negate),
            _ => None,
        }
    }
}

impl BinaryOperation {
    /// The operation that an infix operator token stands for, if any.
    pub fn from_token(ty: TokenType) -> (r: Option<BinaryOperation>)
        ensures
            r == binary_op_of(ty),
    {
        match ty {
            TokenType::Plus => Some(BinaryOperation::Plus),
            TokenType::Minus => Some(BinaryOperation::Minus),
            TokenType::Star => Some(BinaryOperation::Mul),
            TokenType::Slash => Some(BinaryOperation::Div),
            TokenType::NotEqual => Some(BinaryOperation::NotEqual),
            TokenType::EqualEqual => Some(BinaryOperation::EqualEqual),
            TokenType::Less => Some(BinaryOperation::Less),
            TokenType::LessEqual => Some(BinaryOperation::LessEqual),
            TokenType::Greater => Some(BinaryOperation::Greater),
            TokenType::GreaterEqual => Some(BinaryOperation::GreaterEqual),
            _ => None,
        }
    }

    /// The precedence level of this operation, loosest first.
    pub fn level(&self) -> (r: u8)
        ensures
            r == op_level(*self),
    {
        match self {
            BinaryOperation::NotEqual | BinaryOperation::EqualEqual => 0,
            BinaryOperation::Less | BinaryOperation::LessEqual | BinaryOperation::Greater
            | BinaryOperation::GreaterEqual => 1,
            BinaryOperation::Plus | BinaryOperation::Minus => 2,
            BinaryOperation::Mul | BinaryOperation::Div => 3,
        }
    }
}

} // verus!
