use crate::ast::{
    BinaryOperation, Block, DefArgument, Expr, ExprKind, Identifier, Item, ItemKind, Literal, Stmt,
    StmtKind, Type, UnaryOperation,
};
use vstd::prelude::*;

verus! {

/// A consumer of expressions: one method per kind of node. [`visit_expr`]
/// routes a node to its method, looking through groupings.
///
/// Each method states what it does through a spec function of the same
/// kind of node, relating the visitor before the call, the node and its
/// parts, the visitor after the call, and the result.
pub trait ExprVisitor: Sized {
    type Output;

    open spec fn visited_literal(before: Self, expr: Expr, literal: Literal, after: Self, r: Self::Output) -> bool {
        true
    }

    open spec fn visited_binary(
        before: Self,
        expr: Expr,
        left: Expr,
        op: BinaryOperation,
        right: Expr,
        after: Self,
        r: Self::Output,
    ) -> bool {
        true
    }

    open spec fn visited_unary(before: Self, expr: Expr, op: UnaryOperation, right: Expr, after: Self, r: Self::Output) -> bool {
        true
    }

    open spec fn visited_call(before: Self, expr: Expr, name: Identifier, args: Vec<Expr>, after: Self, r: Self::Output) -> bool {
        true
    }

    open spec fn visited_variable(before: Self, expr: Expr, name: Identifier, after: Self, r: Self::Output) -> bool {
        true
    }

    fn visit_literal(&mut self, expr: &Expr, literal: &Literal) -> (r: Self::Output)
        ensures
            Self::visited_literal(*old(self), *expr, *literal, *final(self), r),
    ;

    fn visit_binary(&mut self, expr: &Expr, left: &Expr, op: &BinaryOperation, right: &Expr) -> (r: Self::Output)
        ensures
            Self::visited_binary(*old(self), *expr, *left, *op, *right, *final(self), r),
    ;

    fn visit_unary(&mut self, expr: &Expr, op: &UnaryOperation, right: &Expr) -> (r: Self::Output)
        ensures
            Self::visited_unary(*old(self), *expr, *op, *right, *final(self), r),
    ;

    fn visit_call(&mut self, expr: &Expr, name: &Identifier, args: &Vec<Expr>) -> (r: Self::Output)
        ensures
            Self::visited_call(*old(self), *expr, *name, *args, *final(self), r),
    ;

    fn visit_variable(&mut self, expr: &Expr, name: &Identifier) -> (r: Self::Output)
        ensures
            Self::visited_variable(*old(self), *expr, *name, *final(self), r),
    ;
}

/// A consumer of statements, building on a consumer of expressions: one
/// method per kind of statement, and a conversion of an expression's
/// result into a statement's. [`visit_stmt`] routes a statement to its
/// method.
pub trait StmtVisitor: ExprVisitor {
    type Output;

    open spec fn visited_let(before: Self, stmt: Stmt, name: Identifier, ty: Type, val: Expr, after: Self, r: <Self as StmtVisitor>::Output) -> bool {
        true
    }

    open spec fn visited_if(before: Self, stmt: Stmt, cond: Expr, then: Block, otherwise: Block, after: Self, r: <Self as StmtVisitor>::Output) -> bool {
        true
    }

    open spec fn visited_while(before: Self, stmt: Stmt, cond: Expr, block: Block, after: Self, r: <Self as StmtVisitor>::Output) -> bool {
        true
    }

    open spec fn visited_loop(before: Self, stmt: Stmt, block: Block, after: Self, r: <Self as StmtVisitor>::Output) -> bool {
        true
    }

    open spec fn converted(before: Self, value: <Self as ExprVisitor>::Output, after: Self, r: <Self as StmtVisitor>::Output) -> bool {
        true
    }

    fn visit_let(&mut self, stmt: &Stmt, name: &Identifier, ty: &Type, val: &Expr) -> (r: <Self as StmtVisitor>::Output)
        ensures
            Self::visited_let(*old(self), *stmt, *name, *ty, *val, *final(self), r),
    ;

    fn visit_if(&mut self, stmt: &Stmt, cond: &Expr, then: &Block, otherwise: &Block) -> (r: <Self as StmtVisitor>::Output)
        ensures
            Self::visited_if(*old(self), *stmt, *cond, *then, *otherwise, *final(self), r),
    ;

    fn visit_while(&mut self, stmt: &Stmt, cond: &Expr, block: &Block) -> (r: <Self as StmtVisitor>::Output)
        ensures
            Self::visited_while(*old(self), *stmt, *cond, *block, *final(self), r),
    ;

    fn visit_loop(&mut self, stmt: &Stmt, block: &Block) -> (r: <Self as StmtVisitor>::Output)
        ensures
            Self::visited_loop(*old(self), *stmt, *block, *final(self), r),
    ;

    /// Turns the result of visiting a bare expression statement's
    /// expression into the statement's result.
    fn convert(&mut self, value: <Self as ExprVisitor>::Output) -> (r: <Self as StmtVisitor>::Output)
        ensures
            Self::converted(*old(self), value, *final(self), r),
    ;
}

/// A consumer of items. [`visit_item`] routes an item to its method.
pub trait ItemVisitor: Sized {
    type Output;

    open spec fn visited_def(before: Self, item: Item, name: Identifier, args: Vec<DefArgument>, after: Self, r: Self::Output) -> bool {
        true
    }

    fn visit_def(&mut self, item: &Item, name: &Identifier, args: &Vec<DefArgument>) -> (r: Self::Output)
        ensures
            Self::visited_def(*old(self), *item, *name, *args, *final(self), r),
    ;
}

/// The expression inside any number of groupings.
pub open spec fn ungrouped(e: Expr) -> Expr
    decreases e,
{
    match e.0 {
        ExprKind::Grouping(inner) => ungrouped(*inner),
        _ => e,
    }
}

/// Whether visiting `expr` took `before` to `after` with result `r`: the
/// expression inside any groupings went, whole and with its parts, to the
/// one method of its kind of node, and `r` is that method's result.
pub open spec fn routed<V: ExprVisitor>(before: V, expr: Expr, after: V, r: V::Output) -> bool {
    let e = ungrouped(expr);
    match e.0 {
        ExprKind::Literal(l) => V::visited_literal(before, e, l, after, r),
        ExprKind::Binary { left, op, right } => V::visited_binary(before, e, *left, op, *right, after, r),
        ExprKind::Unary { op, expr: x } => V::visited_unary(before, e, op, *x, after, r),
        ExprKind::Call { name, args } => V::visited_call(before, e, name, args, after, r),
        ExprKind::Variable(name) => V::visited_variable(before, e, name, after, r),
        ExprKind::Grouping(_) => false,
    }
}

/// Routes `expr` to the method of `visitor` for its kind of node; a
/// grouping is looked through to the expression it holds.
pub fn visit_expr<V: ExprVisitor>(visitor: &mut V, expr: &Expr) -> (r: V::Output)
    ensures
        routed(*old(visitor), *expr, *final(visitor), r),
    decreases expr,
{
    match &expr.0 {
        ExprKind::Literal(literal) => visitor.visit_literal(expr, literal),
        ExprKind::Binary { left, op, right } => visitor.visit_binary(expr, left, op, right),
        ExprKind::Unary { op, expr: operand } => visitor.visit_unary(expr, op, operand),
        ExprKind::Call { name, args } => visitor.visit_call(expr, name, args),
        ExprKind::Grouping(inner) => visit_expr(visitor, inner),
        ExprKind::Variable(name) => visitor.visit_variable(expr, name),
    }
}

/// Whether visiting `stmt` took `before` to `after` with result `r`: the
/// statement went to the one method of its kind, and a bare expression
/// statement's expression was visited as an expression and the result
/// converted.
pub open spec fn stmt_routed<V: StmtVisitor>(before: V, stmt: Stmt, after: V, r: <V as StmtVisitor>::Output) -> bool {
    match stmt.0 {
        StmtKind::Let { name, ty, val } => V::visited_let(before, stmt, name, ty, val, after, r),
        StmtKind::If { cond, then, otherwise } => V::visited_if(before, stmt, cond, then, otherwise, after, r),
        StmtKind::While { cond, block } => V::visited_while(before, stmt, cond, block, after, r),
        StmtKind::Loop(block) => V::visited_loop(before, stmt, block, after, r),
        StmtKind::Expr(e) => exists|mid: V, value: <V as ExprVisitor>::Output|
            routed(before, e, mid, value) && #[trigger] V::converted(mid, value, after, r),
    }
}

/// Routes `stmt` to the method of `visitor` for its kind of statement; a
/// bare expression goes through [`visit_expr`] and its result is converted.
pub fn visit_stmt<V: StmtVisitor>(visitor: &mut V, stmt: &Stmt) -> (r: <V as StmtVisitor>::Output)
    ensures
        stmt_routed(*old(visitor), *stmt, *final(visitor), r),
{
    match &stmt.0 {
        StmtKind::Let { name, ty, val } => visitor.visit_let(stmt, name, ty, val),
        StmtKind::If { cond, then, otherwise } => visitor.visit_if(stmt, cond, then, otherwise),
        StmtKind::While { cond, block } => visitor.visit_while(stmt, cond, block),
        StmtKind::Loop(block) => visitor.visit_loop(stmt, block),
        StmtKind::Expr(expr) => {
            let ghost before = *visitor;
            let value = visit_expr(visitor, expr);
            let ghost mid = *visitor;
            let r = visitor.convert(value);
            assert(routed(before, *expr, mid, value) && V::converted(mid, value, *visitor, r));
            r
        },
    }
}

/// Routes `item` to the method of `visitor` for its kind of item.
pub fn visit_item<V: ItemVisitor>(visitor: &mut V, item: &Item) -> (r: V::Output)
    ensures
        item.0 matches ItemKind::Def { name, args } && V::visited_def(*old(visitor), *item, name, args, *final(visitor), r),
{
    match &item.0 {
        ItemKind::Def { name, args } => visitor.visit_def(item, name, args),
    }
}

} // verus!
