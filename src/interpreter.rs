use crate::ast::{
    lit_model, tree_of, tree_span, BinaryOperation, Expr, ExprKind, Identifier, Literal, Tree,
    UnaryOperation, ValueModel,
};
use crate::diagnostic::{reports, runtime_label, runtime_message, runtime_span, Diagnostic};
use crate::span::Span;
use crate::visit::ExprVisitor;
use codespan::FileId;
use vstd::prelude::*;

verus! {

/// A runtime value.
#[derive(Debug, Clone, PartialEq, Eq)]
pub enum Value {
    Int(i64),
    String(String),
    Bool(bool),
}

/// The type of a runtime value.
#[derive(Debug, Clone, Copy, PartialEq, Eq, Structural)]
pub enum ValueKind {
    Int,
    String,
    Bool,
}

/// Why an expression could not be evaluated. Each error carries a span.
#[derive(Debug, Clone, Copy, PartialEq, Eq, Structural)]
pub enum RuntimeError {
    /// An operand of type `found` where type `expected` was needed; the
    /// span is the operand's.
    TypeMismatch { expected: ValueKind, found: ValueKind, span: Span },
    /// A division by zero; the span is the division's.
    DivideByZero { span: Span },
    /// A result outside the range of 64-bit signed integers; the span is
    /// the operation's.
    Overflow { span: Span },
    /// A call or a variable: neither has anything to evaluate against.
    Unsupported { span: Span },
}

pub open spec fn value_model(v: Value) -> ValueModel {
    match v {
        Value::Int(x) => ValueModel::Int(x),
        Value::String(s) => ValueModel::Str(s@),
        Value::Bool(b) => ValueModel::Bool(b),
    }
}

pub open spec fn kind_of(v: ValueModel) -> ValueKind {
    match v {
        ValueModel::Int(_) => ValueKind::Int,
        ValueModel::Str(_) => ValueKind::String,
        ValueModel::Bool(_) => ValueKind::Bool,
    }
}

pub open spec fn kind_name(k: ValueKind) -> Seq<char> {
    match k {
        ValueKind::Int => "int"@,
        ValueKind::String => "string"@,
        ValueKind::Bool => "bool"@,
    }
}

/// Integer division rounded toward zero.
pub open spec fn trunc_div(x: int, d: int) -> int
    recommends
        d != 0,
{
    if x == 0 {
        0
    } else if x > 0 && d > 0 {
        x / d
    } else if x < 0 && d < 0 {
        (-x) / (-d)
    } else if x < 0 {
        -((-x) / d)
    } else {
        -(x / (-d))
    }
}

pub open spec fn int_result(v: int, span: Span) -> Result<ValueModel, RuntimeError> {
    if i64::MIN <= v <= i64::MAX {
        Ok(ValueModel::Int(v as i64))
    } else {
        Err(RuntimeError::Overflow { span })
    }
}

/// A binary operation on two integers; `span` is the operation's.
pub open spec fn apply_binary(op: BinaryOperation, a: i64, b: i64, span: Span) -> Result<ValueModel, RuntimeError> {
    match op {
        BinaryOperation::Plus => int_result(a + b, span),
        BinaryOperation::Minus => int_result(a - b, span),
        BinaryOperation::Mul => int_result(a * b, span),
        BinaryOperation::Div => if b == 0 {
            Err(RuntimeError::DivideByZero { span })
        } else {
            int_result(trunc_div(a as int, b as int), span)
        },
        BinaryOperation::NotEqual => Ok(ValueModel::Bool(a != b)),
        BinaryOperation::EqualEqual => Ok(ValueModel::Bool(a == b)),
        BinaryOperation::Less => Ok(ValueModel::Bool(a < b)),
        BinaryOperation::LessEqual => Ok(ValueModel::Bool(a <= b)),
        BinaryOperation::Greater => Ok(ValueModel::Bool(a > b)),
        BinaryOperation::GreaterEqual => Ok(ValueModel::Bool(a >= b)),
    }
}

/// A prefix operation on the value of an operand whose span is
/// `operand`; `span` is the operation's.
pub open spec fn apply_unary(op: UnaryOperation, v: ValueModel, operand: Span, span: Span) -> Result<ValueModel, RuntimeError> {
    match op {
        UnaryOperation::Negate => match v {
            ValueModel::Int(x) => int_result(-x, span),
            _ => Err(RuntimeError::TypeMismatch { expected: ValueKind::Int, found: kind_of(v), span: operand }),
        },
        UnaryOperation::Not => match v {
            ValueModel::Bool(b) => Ok(ValueModel::Bool(!b)),
            _ => Err(RuntimeError::TypeMismatch { expected: ValueKind::Bool, found: kind_of(v), span: operand }),
        },
    }
}

/// The value of an expression. A grouping has the value of what it holds.
/// A binary operation evaluates its left operand, checks that it is an
/// integer, then does the same for its right operand.
pub open spec fn eval(t: Tree) -> Result<ValueModel, RuntimeError>
    decreases t,
{
    match t {
        Tree::Lit(v, _) => Ok(v),
        Tree::Grouping(inner, _) => eval(*inner),
        Tree::Call(span) => Err(RuntimeError::Unsupported { span }),
        Tree::Variable(span) => Err(RuntimeError::Unsupported { span }),
        Tree::Unary(op, e, span) => match eval(*e) {
            Err(x) => Err(x),
            Ok(v) => apply_unary(op, v, tree_span(*e), span),
        },
        Tree::Binary(l, op, r, span) => match eval(*l) {
            Err(x) => Err(x),
            Ok(ValueModel::Int(a)) => match eval(*r) {
                Err(x) => Err(x),
                Ok(ValueModel::Int(b)) => apply_binary(op, a, b, span),
                Ok(v) => Err(RuntimeError::TypeMismatch { expected: ValueKind::Int, found: kind_of(v), span: tree_span(*r) }),
            },
            Ok(v) => Err(RuntimeError::TypeMismatch { expected: ValueKind::Int, found: kind_of(v), span: tree_span(*l) }),
        },
    }
}

/// Whether an exec evaluation result agrees with [`eval`].
pub open spec fn evaluates_to(r: Result<Value, RuntimeError>, m: Result<ValueModel, RuntimeError>) -> bool {
    match m {
        Ok(v) => r matches Ok(x) && value_model(x) == v,
        Err(e) => r == Err::<Value, RuntimeError>(e),
    }
}

impl ValueKind {
    /// The name of this type in messages: `int`, `string` or `bool`.
    pub fn name(&self) -> (r: &'static str)
        ensures
            r@ == kind_name(*self),
    {
        match self {
            ValueKind::Int => "int",
            ValueKind::String => "string",
            ValueKind::Bool => "bool",
        }
    }
}

impl Value {
    pub fn kind(&self) -> (r: ValueKind)
        ensures
            r == kind_of(value_model(*self)),
    {
        match self {
            Value::Int(_) => ValueKind::Int,
            Value::String(_) => ValueKind::String,
            Value::Bool(_) => ValueKind::Bool,
        }
    }
}

fn int_value(v: Option<i64>, span: Span) -> (r: Result<Value, RuntimeError>)
    ensures
        match v {
            Some(x) => r == Ok::<Value, RuntimeError>(Value::Int(x)),
            None => r == Err::<Value, RuntimeError>(RuntimeError::Overflow { span }),
        },
{
    match v {
        Some(x) => Ok(Value::Int(x)),
        None => Err(RuntimeError::Overflow { span }),
    }
}

/// Evaluates expressions to values.
#[derive(Debug)]
pub struct Interpreter {
    file: FileId,
}

impl Interpreter {
    pub closed spec fn file_spec(&self) -> FileId {
        self.file
    }

    /// An interpreter whose errors are reported against file `file`.
    pub fn new(file: FileId) -> (r: Interpreter)
        ensures
            r.file_spec() == file,
    {
        Interpreter { file }
    }

    /// The report of `err` against this interpreter's file.
    pub fn make_diagnostic(&self, err: &RuntimeError) -> (r: Diagnostic)
        ensures
            reports(r, runtime_message(*err), self.file_spec(), runtime_span(*err), runtime_label(*err)),
    {
        err.to_diagnostic(self.file)
    }

    /// The file this interpreter reports errors against.
    pub fn file(&self) -> (r: FileId)
        ensures
            r == self.file_spec(),
    {
        self.file
    }

    /// The value of a literal.
    pub fn literal_value(&self, literal: &Literal) -> (r: Value)
        ensures
            value_model(r) == crate::ast::lit_model(*literal),
    {
        match literal {
            Literal::Int(x) => Value::Int(*x),
            Literal::String(x) => Value::String(x.clone()),
            Literal::Bool(x) => Value::Bool(*x),
        }
    }

    /// A binary operation on two integer operands; `span` is the operation's.
    pub fn binary_value(&self, op: BinaryOperation, a: i64, b: i64, span: Span) -> (r: Result<Value, RuntimeError>)
        ensures
            evaluates_to(r, apply_binary(op, a, b, span)),
    {
        match op {
            BinaryOperation::Plus => int_value(a.checked_add(b), span),
            BinaryOperation::Minus => int_value(a.checked_sub(b), span),
            BinaryOperation::Mul => int_value(a.checked_mul(b), span),
            BinaryOperation::Div => if b == 0 {
                Err(RuntimeError::DivideByZero { span })
            } else {
                int_value(a.checked_div(b), span)
            },
            BinaryOperation::NotEqual => Ok(Value::Bool(a != b)),
            BinaryOperation::EqualEqual => Ok(Value::Bool(a == b)),
            BinaryOperation::Less => Ok(Value::Bool(a < b)),
            BinaryOperation::LessEqual => Ok(Value::Bool(a <= b)),
            BinaryOperation::Greater => Ok(Value::Bool(a > b)),
            BinaryOperation::GreaterEqual => Ok(Value::Bool(a >= b)),
        }
    }

    /// A prefix operation on the value of an operand whose span is
    /// `operand`; `span` is the operation's.
    pub fn unary_value(&self, op: UnaryOperation, val: Value, operand: Span, span: Span) -> (r: Result<Value, RuntimeError>)
        ensures
            evaluates_to(r, apply_unary(op, value_model(val), operand, span)),
    {
        match op {
            UnaryOperation::Negate => match val {
                Value::Int(x) => int_value(0i64.checked_sub(x), span),
                other => Err(RuntimeError::TypeMismatch { expected: ValueKind::Int, found: other.kind(), span: operand }),
            },
            UnaryOperation::Not => match val {
                Value::Bool(x) => Ok(Value::Bool(!x)),
                other => Err(RuntimeError::TypeMismatch { expected: ValueKind::Bool, found: other.kind(), span: operand }),
            },
        }
    }

    /// Evaluates an expression; calls and variables have no function table
    /// or environment behind them and are always an error.
    pub fn visit_expr(&mut self, expr: &Expr) -> (r: Result<Value, RuntimeError>)
        ensures
            final(self).file_spec() == old(self).file_spec(),
            evaluates_to(r, eval(tree_of(*expr))),
        decreases expr,
    {
        match &expr.0 {
            ExprKind::Literal(literal) => Ok(self.literal_value(literal)),
            ExprKind::Grouping(inner) => self.visit_expr(inner),
            ExprKind::Call { .. } => Err(RuntimeError::Unsupported { span: expr.1 }),
            ExprKind::Variable(_) => Err(RuntimeError::Unsupported { span: expr.1 }),
            ExprKind::Unary { op, expr: operand } => {
                let val = match self.visit_expr(operand) {
                    Ok(v) => v,
                    Err(e) => return Err(e),
                };
                self.unary_value(*op, val, operand.1, expr.1)
            },
            ExprKind::Binary { left, op, right } => {
                let a = match self.visit_expr(left) {
                    Ok(Value::Int(x)) => x,
                    Ok(other) => return Err(
                        RuntimeError::TypeMismatch { expected: ValueKind::Int, found: other.kind(), span: left.1 },
                    ),
                    Err(e) => return Err(e),
                };
                let b = match self.visit_expr(right) {
                    Ok(Value::Int(x)) => x,
                    Ok(other) => return Err(
                        RuntimeError::TypeMismatch { expected: ValueKind::Int, found: other.kind(), span: right.1 },
                    ),
                    Err(e) => return Err(e),
                };
                self.binary_value(*op, a, b, expr.1)
            },
        }
    }
}

/// The interpreter as a consumer of expressions: each method evaluates the
/// node it is given, its operands through [`Interpreter::visit_expr`].
impl ExprVisitor for Interpreter {
    type Output = Result<Value, RuntimeError>;

    open spec fn visited_literal(before: Self, expr: Expr, literal: Literal, after: Self, r: Self::Output) -> bool {
        after == before && evaluates_to(r, Ok(lit_model(literal)))
    }

    open spec fn visited_binary(
        before: Self,
        expr: Expr,
        left: Expr,
        op: BinaryOperation,
        right: Expr,
        after: Self,
        r: Self::Output,
    ) -> bool {
        &&& after.file_spec() == before.file_spec()
        &&& evaluates_to(r, eval(Tree::Binary(Box::new(tree_of(left)), op, Box::new(tree_of(right)), expr.1)))
    }

    open spec fn visited_unary(before: Self, expr: Expr, op: UnaryOperation, right: Expr, after: Self, r: Self::Output) -> bool {
        &&& after.file_spec() == before.file_spec()
        &&& evaluates_to(r, eval(Tree::Unary(op, Box::new(tree_of(right)), expr.1)))
    }

    open spec fn visited_call(before: Self, expr: Expr, name: Identifier, args: Vec<Expr>, after: Self, r: Self::Output) -> bool {
        after == before && r == Err::<Value, RuntimeError>(RuntimeError::Unsupported { span: expr.1 })
    }

    open spec fn visited_variable(before: Self, expr: Expr, name: Identifier, after: Self, r: Self::Output) -> bool {
        after == before && r == Err::<Value, RuntimeError>(RuntimeError::Unsupported { span: expr.1 })
    }

    fn visit_literal(&mut self, expr: &Expr, literal: &Literal) -> (r: Self::Output) {
        Ok(self.literal_value(literal))
    }

    fn visit_binary(&mut self, expr: &Expr, left: &Expr, op: &BinaryOperation, right: &Expr) -> (r: Self::Output) {
        let a = match self.visit_expr(left) {
            Ok(Value::Int(x)) => x,
            Ok(other) => return Err(
                RuntimeError::TypeMismatch { expected: ValueKind::Int, found: other.kind(), span: left.1 },
            ),
            Err(e) => return Err(e),
        };
        let b = match self.visit_expr(right) {
            Ok(Value::Int(x)) => x,
            Ok(other) => return Err(
                RuntimeError::TypeMismatch { expected: ValueKind::Int, found: other.kind(), span: right.1 },
            ),
            Err(e) => return Err(e),
        };
        self.binary_value(*op, a, b, expr.1)
    }

    fn visit_unary(&mut self, expr: &Expr, op: &UnaryOperation, right: &Expr) -> (r: Self::Output) {
        let val = match self.visit_expr(right) {
            Ok(v) => v,
            Err(e) => return Err(e),
        };
        self.unary_value(*op, val, right.1, expr.1)
    }

    fn visit_call(&mut self, expr: &Expr, name: &Identifier, args: &Vec<Expr>) -> (r: Self::Output) {
        Err(RuntimeError::Unsupported { span: expr.1 })
    }

    fn visit_variable(&mut self, expr: &Expr, name: &Identifier) -> (r: Self::Output) {
        Err(RuntimeError::Unsupported { span: expr.1 })
    }
}

/// Routing an expression to the interpreter's visitor methods evaluates
/// it: whatever [`crate::visit::visit_expr`] returns for the interpreter is
/// the value of the expression.
pub proof fn lemma_routed_evaluates(before: Interpreter, expr: Expr, after: Interpreter, r: Result<Value, RuntimeError>)
    requires
        crate::visit::routed(before, expr, after, r),
    ensures
        evaluates_to(r, eval(tree_of(expr))),
        after.file_spec() == before.file_spec(),
    decreases expr,
{
    if let ExprKind::Grouping(inner) = expr.0 {
        lemma_routed_evaluates(before, *inner, after, r);
    }
}

} // verus!
