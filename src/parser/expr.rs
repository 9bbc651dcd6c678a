//! Building expression trees from the flat operand/operator sequence that
//! the grammar yields.
use vstd::prelude::*;
use crate::ast::{expr_view, BinaryOp, Expr, ExprV, UnaryOp};

verus! {

/// Binding strength of a binary operator; higher binds tighter.
pub open spec fn prec(op: BinaryOp) -> u8 {
    match op {
        BinaryOp::Or => 1,
        BinaryOp::And => 2,
        BinaryOp::Eq | BinaryOp::Ne => 3,
        BinaryOp::Lt | BinaryOp::Le | BinaryOp::Gt | BinaryOp::Ge => 4,
        BinaryOp::Add | BinaryOp::Sub => 5,
        BinaryOp::Mul | BinaryOp::Div | BinaryOp::Mod => 6,
    }
}

/// The position of the operator that becomes the root: the one of lowest
/// precedence, the rightmost among equals.
pub open spec fn split_point(ops: Seq<BinaryOp>) -> int
    decreases ops.len(),
{
    if ops.len() <= 1 {
        0
    } else {
        let k = split_point(ops.drop_last());
        if prec(ops.last()) <= prec(ops[k]) {
            ops.len() - 1
        } else {
            k
        }
    }
}

/// The tree of operands `xs` joined by operators `ops`: the split point is
/// the root, and each side is built the same way. The rightmost choice
/// among equal precedences makes operators group to the left.
pub open spec fn build_spec(xs: Seq<Expr>, ops: Seq<BinaryOp>) -> Expr
    decreases ops.len(),
{
    let k = split_point(ops);
    if ops.len() > 0 && 0 <= k < ops.len() {
        Expr::Binary {
            op: ops[k],
            left: Box::new(build_spec(xs.take(k + 1), ops.take(k))),
            right: Box::new(build_spec(xs.skip(k + 1), ops.skip(k + 1))),
        }
    } else {
        xs[0]
    }
}

/// `e` under the prefix operators `ops`, the first of them outermost.
pub open spec fn wrap_unary(ops: Seq<UnaryOp>, e: Expr) -> Expr
    decreases ops.len(),
{
    if ops.len() == 0 {
        e
    } else {
        wrap_unary(ops.drop_last(), Expr::Unary { op: ops.last(), operand: Box::new(e) })
    }
}

/// `build_spec` on expression models.
pub open spec fn build_v(xs: Seq<ExprV>, ops: Seq<BinaryOp>) -> ExprV
    decreases ops.len(),
{
    let k = split_point(ops);
    if ops.len() > 0 && 0 <= k < ops.len() {
        ExprV::Binary(
            ops[k],
            Box::new(build_v(xs.take(k + 1), ops.take(k))),
            Box::new(build_v(xs.skip(k + 1), ops.skip(k + 1))),
        )
    } else {
        xs[0]
    }
}

/// `wrap_unary` on expression models.
pub open spec fn wrap_v(ops: Seq<UnaryOp>, e: ExprV) -> ExprV
    decreases ops.len(),
{
    if ops.len() == 0 {
        e
    } else {
        wrap_v(ops.drop_last(), ExprV::Unary(ops.last(), Box::new(e)))
    }
}

/// The models of a sequence of expressions.
pub open spec fn views(xs: Seq<Expr>) -> Seq<ExprV> {
    xs.map_values(|e: Expr| expr_view(e))
}

pub proof fn lemma_build_view(xs: Seq<Expr>, ops: Seq<BinaryOp>)
    requires
        xs.len() == ops.len() + 1,
    ensures
        expr_view(build_spec(xs, ops)) == build_v(views(xs), ops),
    decreases ops.len(),
{
    let k = split_point(ops);
    if ops.len() > 0 && 0 <= k < ops.len() {
        lemma_build_view(xs.take(k + 1), ops.take(k));
        lemma_build_view(xs.skip(k + 1), ops.skip(k + 1));
        assert(views(xs.take(k + 1)) =~= views(xs).take(k + 1));
        assert(views(xs.skip(k + 1)) =~= views(xs).skip(k + 1));
    }
}

pub proof fn lemma_wrap_view(ops: Seq<UnaryOp>, e: Expr)
    ensures
        expr_view(wrap_unary(ops, e)) == wrap_v(ops, expr_view(e)),
    decreases ops.len(),
{
    if ops.len() > 0 {
        lemma_wrap_view(ops.drop_last(), Expr::Unary { op: ops.last(), operand: Box::new(e) });
    }
}

/// The binding strength of an operator.
pub fn precedence(op: &BinaryOp) -> (r: u8)
    ensures
        r == prec(*op),
{
    match op {
        BinaryOp::Or => 1,
        BinaryOp::And => 2,
        BinaryOp::Eq | BinaryOp::Ne => 3,
        BinaryOp::Lt | BinaryOp::Le | BinaryOp::Gt | BinaryOp::Ge => 4,
        BinaryOp::Add | BinaryOp::Sub => 5,
        BinaryOp::Mul | BinaryOp::Div | BinaryOp::Mod => 6,
    }
}

/// Builds the tree of `operands` joined by `operators`, with the usual
/// precedence and left grouping.
pub fn build_expr_with_precedence(operands: Vec<Expr>, operators: Vec<BinaryOp>) -> (r: Expr)
    requires
        operands.len() == operators.len() + 1,
    ensures
        r == build_spec(operands@, operators@),
    decreases operators.len(),
{
    let mut operands = operands;
    if operators.len() == 0 {
        return operands.remove(0);
    }
    let mut min_prec: u8 = u8::MAX;
    let mut min_idx: usize = 0;
    let mut i: usize = 0;
    while i < operators.len()
        invariant
            0 <= i <= operators.len(),
            i == 0 ==> min_prec == u8::MAX && min_idx == 0,
            i > 0 ==> min_idx == split_point(operators@.take(i as int)) && min_idx < i
                && min_prec == prec(operators@[min_idx as int]),
        decreases operators.len() - i,
    {
        let p = precedence(&operators[i]);
        proof {
            let t = operators@.take(i as int + 1);
            assert(t.drop_last() =~= operators@.take(i as int));
            assert(t.last() == operators@[i as int]);
            if i > 0 {
                assert(t[min_idx as int] == operators@[min_idx as int]);
            }
        }
        if p <= min_prec {
            min_prec = p;
            min_idx = i;
        }
        i = i + 1;
    }
    assert(operators@.take(operators.len() as int) =~= operators@);
    let op = operators[min_idx];
    let right_operands = operands.split_off(min_idx + 1);
    let mut left_operators = operators;
    let mut rest = left_operators.split_off(min_idx);
    let right_operators = rest.split_off(1);
    assert(right_operators@ =~= operators@.skip(min_idx as int + 1));
    let left = build_expr_with_precedence(operands, left_operators);
    let right = build_expr_with_precedence(right_operands, right_operators);
    Expr::Binary { op, left: Box::new(left), right: Box::new(right) }
}

/// Puts `e` under the prefix operators `ops`, innermost last: `--x` becomes
/// `Neg(Neg(x))`.
pub fn apply_unary(ops: Vec<UnaryOp>, e: Expr) -> (r: Expr)
    ensures
        r == wrap_unary(ops@, e),
{
    let mut cur = e;
    let mut i: usize = ops.len();
    assert(ops@.take(i as int) =~= ops@);
    while i > 0
        invariant
            i <= ops.len(),
            wrap_unary(ops@, e) == wrap_unary(ops@.take(i as int), cur),
        decreases i,
    {
        proof {
            let t = ops@.take(i as int);
            assert(t.drop_last() =~= ops@.take(i as int - 1));
        }
        cur = Expr::Unary { op: ops[i - 1], operand: Box::new(cur) };
        i = i - 1;
    }
    assert(ops@.take(0) =~= Seq::<UnaryOp>::empty());
    cur
}

} // verus!
