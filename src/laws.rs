//! Laws of the language, stated over the specifications of the front end
//! and of the evaluator.
use vstd::prelude::*;
use vstd::wrapping::i64_specs::{wrapping_add, wrapping_mul};
use crate::ast::{node_id, same_node, BinaryOp, Expr, Node, Statement, TypeName, UnaryOp};
use crate::parser::expr::{build_spec, prec, split_point, wrap_unary};
use crate::parser::validate::merge_outcome;
use crate::runtime::eval::{
    abs_int, binary_spec, cast_spec, eval_spec, is_int_op, trunc_div, trunc_rem, unary_spec,
    wrapping_neg,
};
use crate::runtime::exec::exec_spec;
use crate::runtime::value::{display_text, ErrorV, ValueV};
use crate::text::{
    all_digits, decimal_text, decimal_value, digit_char, digit_value, digits_of, digits_value,
    i64_of_text, is_digit,
};

verus! {

/// Of two operators, the one that binds tighter groups its operands first:
/// `a o1 b o2 c` is `a o1 (b o2 c)` when `o2` binds tighter than `o1`.
pub proof fn law_tighter_operator_groups_first(a: Expr, b: Expr, c: Expr, o1: BinaryOp, o2: BinaryOp)
    requires
        prec(o2) > prec(o1),
    ensures
        build_spec(seq![a, b, c], seq![o1, o2]) == (Expr::Binary {
            op: o1,
            left: Box::new(a),
            right: Box::new(Expr::Binary { op: o2, left: Box::new(b), right: Box::new(c) }),
        }),
{
    let xs = seq![a, b, c];
    let ops = seq![o1, o2];
    assert(ops.drop_last() =~= seq![o1]);
    assert(split_point(seq![o1]) == 0);
    assert(ops[0] == o1 && ops.last() == o2);
    assert(split_point(ops) == 0);
    assert(xs.take(1) =~= seq![a]);
    assert(ops.take(0) =~= Seq::<BinaryOp>::empty());
    assert(xs.skip(1) =~= seq![b, c]);
    assert(ops.skip(1) =~= seq![o2]);
    let r = seq![b, c];
    let rops = seq![o2];
    assert(split_point(rops) == 0);
    assert(r.take(1) =~= seq![b]);
    assert(rops.take(0) =~= Seq::<BinaryOp>::empty());
    assert(r.skip(1) =~= seq![c]);
    assert(rops.skip(1) =~= Seq::<BinaryOp>::empty());
    assert(build_spec(seq![a], Seq::<BinaryOp>::empty()) == a);
    assert(build_spec(seq![b], Seq::<BinaryOp>::empty()) == b);
    assert(build_spec(seq![c], Seq::<BinaryOp>::empty()) == c);
    assert(rops[0] == o2);
    assert(build_spec(r, rops) == Expr::Binary { op: o2, left: Box::new(b), right: Box::new(c) });
}

/// Operators that bind equally group to the left: `a o1 b o2 c` is
/// `(a o1 b) o2 c` when `o1` binds at least as tightly as `o2`.
pub proof fn law_equal_operators_group_left(a: Expr, b: Expr, c: Expr, o1: BinaryOp, o2: BinaryOp)
    requires
        prec(o1) >= prec(o2),
    ensures
        build_spec(seq![a, b, c], seq![o1, o2]) == (Expr::Binary {
            op: o2,
            left: Box::new(Expr::Binary { op: o1, left: Box::new(a), right: Box::new(b) }),
            right: Box::new(c),
        }),
{
    let xs = seq![a, b, c];
    let ops = seq![o1, o2];
    assert(ops.drop_last() =~= seq![o1]);
    assert(split_point(seq![o1]) == 0);
    assert(ops[0] == o1 && ops.last() == o2);
    assert(split_point(ops) == 1);
    assert(xs.take(2) =~= seq![a, b]);
    assert(ops.take(1) =~= seq![o1]);
    assert(xs.skip(2) =~= seq![c]);
    assert(ops.skip(2) =~= Seq::<BinaryOp>::empty());
    let l = seq![a, b];
    let lops = seq![o1];
    assert(split_point(lops) == 0);
    assert(l.take(1) =~= seq![a]);
    assert(lops.take(0) =~= Seq::<BinaryOp>::empty());
    assert(l.skip(1) =~= seq![b]);
    assert(lops.skip(1) =~= Seq::<BinaryOp>::empty());
    assert(build_spec(seq![a], Seq::<BinaryOp>::empty()) == a);
    assert(build_spec(seq![b], Seq::<BinaryOp>::empty()) == b);
    assert(build_spec(seq![c], Seq::<BinaryOp>::empty()) == c);
    assert(lops[0] == o1);
    assert(build_spec(l, lops) == Expr::Binary { op: o1, left: Box::new(a), right: Box::new(b) });
    assert(ops[1] == o2);
}

/// Prefix operators apply innermost last: `o1 o2 e` is `o1(o2(e))`.
pub proof fn law_prefix_operators_nest(o1: UnaryOp, o2: UnaryOp, e: Expr)
    ensures
        wrap_unary(seq![o1, o2], e) == (Expr::Unary {
            op: o1,
            operand: Box::new(Expr::Unary { op: o2, operand: Box::new(e) }),
        }),
{
    let ops = seq![o1, o2];
    let inner = Expr::Unary { op: o2, operand: Box::new(e) };
    assert(ops.drop_last() =~= seq![o1]);
    assert(ops.last() == o2);
    assert(seq![o1].drop_last() =~= Seq::<UnaryOp>::empty());
    assert(seq![o1].last() == o1);
    assert(wrap_unary(Seq::<UnaryOp>::empty(), Expr::Unary { op: o1, operand: Box::new(inner) })
        == Expr::Unary { op: o1, operand: Box::new(inner) });
    assert(wrap_unary(seq![o1], inner) == Expr::Unary { op: o1, operand: Box::new(inner) });
}

/// Negating an integer twice gives it back, the least value included, and
/// so does negating a boolean twice.
pub proof fn law_double_negation(n: i64, b: bool)
    ensures
        unary_spec(UnaryOp::Neg, ValueV::Int(n)) == Ok::<ValueV, ErrorV>(ValueV::Int(wrapping_neg(n))),
        unary_spec(UnaryOp::Neg, ValueV::Int(wrapping_neg(n))) == Ok::<ValueV, ErrorV>(ValueV::Int(n)),
        unary_spec(UnaryOp::Not, ValueV::Bool(b)) == Ok::<ValueV, ErrorV>(ValueV::Bool(!b)),
        unary_spec(UnaryOp::Not, ValueV::Bool(!b)) == Ok::<ValueV, ErrorV>(ValueV::Bool(b)),
{
}

/// Integer arithmetic and comparison never fail, but for a zero divisor:
/// `+ - *` wrap around instead of overflowing.
pub proof fn law_integer_operators_are_total(op: BinaryOp, a: i64, b: i64)
    requires
        is_int_op(op),
        !((op is Div || op is Mod) && b == 0),
    ensures
        binary_spec(op, ValueV::Int(a), ValueV::Int(b)) is Ok,
        op is Add ==> binary_spec(op, ValueV::Int(a), ValueV::Int(b)) == Ok::<ValueV, ErrorV>(
            ValueV::Int(wrapping_add(a, b)),
        ),
        op is Mul ==> binary_spec(op, ValueV::Int(a), ValueV::Int(b)) == Ok::<ValueV, ErrorV>(
            ValueV::Int(wrapping_mul(a, b)),
        ),
{
}

/// Division and remainder by zero fail with `DivisionByZero`.
pub proof fn law_zero_divisor_fails(op: BinaryOp, a: i64)
    requires
        op is Div || op is Mod,
    ensures
        binary_spec(op, ValueV::Int(a), ValueV::Int(0)) == Err::<ValueV, ErrorV>(
            ErrorV::DivisionByZero,
        ),
{
}

/// The remainder takes the sign of the dividend and is smaller than the
/// divisor in magnitude; with the quotient it rebuilds the dividend.
pub proof fn law_remainder(a: int, b: int)
    requires
        b != 0,
    ensures
        a >= 0 ==> trunc_rem(a, b) >= 0,
        a < 0 ==> trunc_rem(a, b) <= 0,
        abs_int(trunc_rem(a, b)) < abs_int(b),
        trunc_div(a, b) * b + trunc_rem(a, b) == a,
{
    let x = abs_int(a);
    let y = abs_int(b);
    let q = x / y;
    let m = x % y;
    assert(x == q * y + m && 0 <= m < y) by (nonlinear_arith)
        requires
            x >= 0,
            y > 0,
            q == x / y,
            m == x % y,
    ;
    let d = trunc_div(a, b);
    let r = trunc_rem(a, b);
    if a < 0 && b < 0 {
        assert(d * b + r == a) by (nonlinear_arith)
            requires
                d == q,
                b == -y,
                r == -m,
                a == -x,
                x == q * y + m,
        ;
    } else if a < 0 {
        assert(d * b + r == a) by (nonlinear_arith)
            requires
                d == -q,
                b == y,
                r == -m,
                a == -x,
                x == q * y + m,
        ;
    } else if b < 0 {
        assert(d * b + r == a) by (nonlinear_arith)
            requires
                d == -q,
                b == -y,
                r == m,
                a == x,
                x == q * y + m,
        ;
    } else {
        assert(d * b + r == a) by (nonlinear_arith)
            requires
                d == q,
                b == y,
                r == m,
                a == x,
                x == q * y + m,
        ;
    }
}

/// Every value converts to a string; a boolean never converts to an
/// integer.
pub proof fn law_casts(v: ValueV)
    ensures
        cast_spec(v, TypeName::Str) is Ok,
        v is Bool ==> cast_spec(v, TypeName::Int) matches Err(ErrorV::CastError { .. }),
        v is Int ==> cast_spec(v, TypeName::Int) == Ok::<ValueV, ErrorV>(v),
{
}

/// The merge rule for repeated definitions: an identical definition is
/// accepted and changes nothing; a labeled `Start` or `End` replaces a bare
/// one; a bare one never conflicts; two different definitions of a process
/// or condition node conflict.
pub proof fn law_merge_rule(existing: Node, new: Node)
    requires
        node_id(existing) == node_id(new),
    ensures
        same_node(existing, new) ==> merge_outcome(existing, new) == Some(false),
        (existing matches Node::Start { label: None }) && (new matches Node::Start {
            label: Some(_),
        }) ==> merge_outcome(existing, new) == Some(true),
        (existing matches Node::End { label: None }) && (new matches Node::End {
            label: Some(_),
        }) ==> merge_outcome(existing, new) == Some(true),
        (existing is Start && (new matches Node::Start { label: None })) ==> merge_outcome(
            existing,
            new,
        ) == Some(false),
        ((existing is Process || existing is Condition) && !same_node(existing, new)) ==> merge_outcome(
            existing,
            new,
        ) is None,
{
}

/// An `error` statement is a diagnostic, not a failure: once its message
/// has a value, execution goes on with the variables unchanged.
pub proof fn law_error_statement_continues(message: Expr, env: Map<Seq<char>, ValueV>)
    requires
        eval_spec(message, env) is Ok,
    ensures
        exec_spec(Statement::Error { message }, env) == Ok::<Map<Seq<char>, ValueV>, ErrorV>(env),
{
}

proof fn lemma_digit_char(d: int)
    requires
        0 <= d < 10,
    ensures
        is_digit(digit_char(d)),
        digit_value(digit_char(d)) == d,
{
    let t = seq!['0', '1', '2', '3', '4', '5', '6', '7', '8', '9'];
    assert(t[0] == '0' && t[1] == '1' && t[2] == '2' && t[3] == '3' && t[4] == '4');
    assert(t[5] == '5' && t[6] == '6' && t[7] == '7' && t[8] == '8' && t[9] == '9');
}

proof fn lemma_digits_of(n: nat)
    ensures
        all_digits(digits_of(n)),
        digits_value(digits_of(n)) == n,
        digits_of(n).len() >= 1,
    decreases n,
{
    if n < 10 {
        lemma_digit_char(n as int);
        let s = digits_of(n);
        assert(s.drop_last() =~= Seq::<char>::empty());
        assert(s.last() == digit_char(n as int));
        assert(digits_value(s) == digits_value(s.drop_last()) * 10 + digit_value(s.last()));
    } else {
        lemma_digits_of(n / 10);
        lemma_digit_char((n % 10) as int);
        let s = digits_of(n);
        assert(s.drop_last() =~= digits_of(n / 10));
        assert(s.last() == digit_char((n % 10) as int));
        assert((n / 10) * 10 + n % 10 == n) by (nonlinear_arith);
        assert(digits_value(s) == digits_value(digits_of(n / 10)) * 10 + digit_value(s.last()));
        assert forall|i: int| 0 <= i < s.len() implies is_digit(#[trigger] s[i]) by {
            if i < s.len() - 1 {
                assert(s[i] == digits_of(n / 10)[i]);
            }
        }
    }
}

/// Writing an integer as a string and reading it back as an integer gives
/// the integer: `n as str as int` is `n`.
pub proof fn law_integer_text_round_trip(n: i64)
    ensures
        i64_of_text(display_text(ValueV::Int(n))) == Some(n),
        cast_spec(ValueV::Int(n), TypeName::Str) == Ok::<ValueV, ErrorV>(ValueV::Str(decimal_text(n as int))),
{
    if n < 0 {
        let m = (-(n as int)) as nat;
        lemma_digits_of(m);
        let s = decimal_text(n as int);
        assert(s.skip(1) =~= digits_of(m));
        assert(s[0] == '-');
    } else {
        lemma_digits_of(n as nat);
        let s = decimal_text(n as int);
        assert(is_digit(s[0]));
    }
}

} // verus!
