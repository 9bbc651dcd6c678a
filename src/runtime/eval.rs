//! The expression evaluator.
use vstd::prelude::*;
use vstd::wrapping::i64_specs::{signed_crop, wrapping_add, wrapping_mul, wrapping_sub};
use crate::ast::{BinaryOp, Expr, TypeName, UnaryOp};
use crate::runtime::env::Environment;
use crate::text::{i64_of_text, parse_i64};
use crate::runtime::value::{
    bool_text, display_text, result_view, type_tag, ErrorV, RuntimeError, Value, ValueV,
};

verus! {

/// A source of input lines. `read_line` yields one line without its line
/// terminator, or an error.
pub trait InputReader {
    fn read_line(&mut self) -> Result<String, RuntimeError>;
}

pub open spec fn abs_int(a: int) -> int {
    if a < 0 {
        -a
    } else {
        a
    }
}

/// Division truncating toward zero.
pub open spec fn trunc_div(a: int, b: int) -> int {
    if (a < 0) == (b < 0) {
        abs_int(a) / abs_int(b)
    } else {
        -(abs_int(a) / abs_int(b))
    }
}

/// The remainder of truncating division; it takes the sign of `a`.
pub open spec fn trunc_rem(a: int, b: int) -> int {
    if a < 0 {
        -(abs_int(a) % abs_int(b))
    } else {
        abs_int(a) % abs_int(b)
    }
}

/// Two's-complement negation: the negation of the least value is itself.
pub open spec fn wrapping_neg(n: i64) -> i64 {
    if n == i64::MIN {
        n
    } else {
        (-n) as i64
    }
}

/// The name under which a binary operator appears in diagnostics.
pub open spec fn op_label(op: BinaryOp) -> Seq<char> {
    match op {
        BinaryOp::Add => "Add"@,
        BinaryOp::Sub => "Sub"@,
        BinaryOp::Mul => "Mul"@,
        BinaryOp::Div => "Div"@,
        BinaryOp::Mod => "Mod"@,
        BinaryOp::Eq => "Eq"@,
        BinaryOp::Ne => "Ne"@,
        BinaryOp::Lt => "Lt"@,
        BinaryOp::Le => "Le"@,
        BinaryOp::Gt => "Gt"@,
        BinaryOp::Ge => "Ge"@,
        BinaryOp::And => "And"@,
        BinaryOp::Or => "Or"@,
    }
}

/// The type error for an operand of the wrong type.
pub open spec fn type_error(expected: Seq<char>, v: ValueV, operation: Seq<char>) -> ErrorV {
    ErrorV::TypeError { expected, actual: type_tag(v), operation }
}

/// The meaning of a unary operator on a value.
pub open spec fn unary_spec(op: UnaryOp, v: ValueV) -> Result<ValueV, ErrorV> {
    match op {
        UnaryOp::Not => match v {
            ValueV::Bool(b) => Ok(ValueV::Bool(!b)),
            _ => Err(type_error("bool"@, v, "logical NOT"@)),
        },
        UnaryOp::Neg => match v {
            ValueV::Int(n) => Ok(ValueV::Int(wrapping_neg(n))),
            _ => Err(type_error("int"@, v, "negation"@)),
        },
    }
}

/// Whether an operator takes two integers.
pub open spec fn is_int_op(op: BinaryOp) -> bool {
    !(op is Eq || op is Ne || op is And || op is Or)
}

/// The meaning of an integer operator: wrapping `+ - *`, truncating `/`
/// and `%` that fail on a zero divisor, and the comparisons.
pub open spec fn int_op_spec(op: BinaryOp, a: i64, b: i64) -> Result<ValueV, ErrorV> {
    match op {
        BinaryOp::Add => Ok(ValueV::Int(wrapping_add(a, b))),
        BinaryOp::Sub => Ok(ValueV::Int(wrapping_sub(a, b))),
        BinaryOp::Mul => Ok(ValueV::Int(wrapping_mul(a, b))),
        BinaryOp::Div => if b == 0 {
            Err(ErrorV::DivisionByZero)
        } else {
            Ok(ValueV::Int(signed_crop(trunc_div(a as int, b as int))))
        },
        BinaryOp::Mod => if b == 0 {
            Err(ErrorV::DivisionByZero)
        } else {
            Ok(ValueV::Int(trunc_rem(a as int, b as int) as i64))
        },
        BinaryOp::Lt => Ok(ValueV::Bool(a < b)),
        BinaryOp::Le => Ok(ValueV::Bool(a <= b)),
        BinaryOp::Gt => Ok(ValueV::Bool(a > b)),
        _ => Ok(ValueV::Bool(a >= b)),
    }
}

/// The meaning of a binary operator on two values. Equality takes any two
/// values; `&&` and `||` take booleans; the rest take integers. The left
/// operand's type is checked first.
pub open spec fn binary_spec(op: BinaryOp, l: ValueV, r: ValueV) -> Result<ValueV, ErrorV> {
    match op {
        BinaryOp::Eq => Ok(ValueV::Bool(l == r)),
        BinaryOp::Ne => Ok(ValueV::Bool(l != r)),
        BinaryOp::And | BinaryOp::Or => match (l, r) {
            (ValueV::Bool(a), ValueV::Bool(b)) => Ok(
                ValueV::Bool(
                    if op is And {
                        a && b
                    } else {
                        a || b
                    },
                ),
            ),
            (ValueV::Bool(_), _) => Err(type_error("bool"@, r, op_label(op))),
            _ => Err(type_error("bool"@, l, op_label(op))),
        },
        _ => match (l, r) {
            (ValueV::Int(a), ValueV::Int(b)) => int_op_spec(op, a, b),
            (ValueV::Int(_), _) => Err(type_error("int"@, r, op_label(op))),
            _ => Err(type_error("int"@, l, op_label(op))),
        },
    }
}

/// The meaning of a cast.
pub open spec fn cast_spec(v: ValueV, t: TypeName) -> Result<ValueV, ErrorV> {
    match t {
        TypeName::Int => match v {
            ValueV::Int(n) => Ok(ValueV::Int(n)),
            ValueV::Str(s) => match i64_of_text(s) {
                Some(n) => Ok(ValueV::Int(n)),
                None => Err(ErrorV::CastError { from_type: "str"@, to_type: "int"@, value: s }),
            },
            ValueV::Bool(b) => Err(
                ErrorV::CastError { from_type: "bool"@, to_type: "int"@, value: bool_text(b) },
            ),
        },
        TypeName::Str => Ok(ValueV::Str(display_text(v))),
    }
}

/// Whether evaluating the expression reads input.
pub open spec fn uses_input(e: Expr) -> bool
    decreases e,
{
    match e {
        Expr::Input => true,
        Expr::Unary { operand, .. } => uses_input(*operand),
        Expr::Binary { left, right, .. } => uses_input(*left) || uses_input(*right),
        Expr::Cast { expr, .. } => uses_input(*expr),
        _ => false,
    }
}

/// The value of an expression that reads no input, in the given variables.
/// Operands are evaluated left to right, and the first error is the result.
/// It is only used for expressions that read no input: what an `input`
/// yields depends on the reader, so its arm holds a placeholder that no
/// contract relies on.
pub open spec fn eval_spec(e: Expr, env: Map<Seq<char>, ValueV>) -> Result<ValueV, ErrorV>
    decreases e,
{
    match e {
        Expr::IntLit { value } => Ok(ValueV::Int(value)),
        Expr::StrLit { value } => Ok(ValueV::Str(value@)),
        Expr::BoolLit { value } => Ok(ValueV::Bool(value)),
        Expr::Variable { name } => if env.contains_key(name@) {
            Ok(env[name@])
        } else {
            Err(ErrorV::UndefinedVariable { name: name@ })
        },
        Expr::Input => Err(ErrorV::IoError { message: Seq::empty() }),
        Expr::Unary { op, operand } => match eval_spec(*operand, env) {
            Ok(v) => unary_spec(op, v),
            Err(err) => Err(err),
        },
        Expr::Binary { op, left, right } => match eval_spec(*left, env) {
            Ok(l) => match eval_spec(*right, env) {
                Ok(r) => binary_spec(op, l, r),
                Err(err) => Err(err),
            },
            Err(err) => Err(err),
        },
        Expr::Cast { expr, target_type } => match eval_spec(*expr, env) {
            Ok(v) => cast_spec(v, target_type),
            Err(err) => Err(err),
        },
    }
}

fn operation_name(op: BinaryOp) -> (r: &'static str)
    ensures
        r@ == op_label(op),
{
    match op {
        BinaryOp::Add => "Add",
        BinaryOp::Sub => "Sub",
        BinaryOp::Mul => "Mul",
        BinaryOp::Div => "Div",
        BinaryOp::Mod => "Mod",
        BinaryOp::Eq => "Eq",
        BinaryOp::Ne => "Ne",
        BinaryOp::Lt => "Lt",
        BinaryOp::Le => "Le",
        BinaryOp::Gt => "Gt",
        BinaryOp::Ge => "Ge",
        BinaryOp::And => "And",
        BinaryOp::Or => "Or",
    }
}

fn wrong_type(expected: &'static str, v: &Value, operation: &str) -> (r: RuntimeError)
    ensures
        r@ == type_error(expected@, v@, operation@),
{
    RuntimeError::TypeError {
        expected,
        actual: v.type_label(),
        operation: operation.to_owned(),
    }
}

/// Applies a unary operator to a value.
pub fn eval_unary(op: UnaryOp, operand: Value) -> (r: Result<Value, RuntimeError>)
    ensures
        result_view(r) == unary_spec(op, operand@),
{
    match op {
        UnaryOp::Not => match operand {
            Value::Bool(b) => Ok(Value::Bool(!b)),
            _ => Err(wrong_type("bool", &operand, "logical NOT")),
        },
        UnaryOp::Neg => match operand {
            Value::Int(n) => {
                let m = if n == i64::MIN {
                    n
                } else {
                    -n
                };
                Ok(Value::Int(m))
            },
            _ => Err(wrong_type("int", &operand, "negation")),
        },
    }
}

/// Truncating division and remainder; the quotient wraps, which happens only
/// for the least value divided by minus one.
fn div_rem(a: i64, b: i64) -> (r: (i64, i64))
    requires
        b != 0,
    ensures
        r.0 == signed_crop(trunc_div(a as int, b as int)),
        r.1 == trunc_rem(a as int, b as int),
{
    let la = a as i128;
    let lb = b as i128;
    let ma: i128 = if la < 0 {
        -la
    } else {
        la
    };
    let mb: i128 = if lb < 0 {
        -lb
    } else {
        lb
    };
    let qm = ma / mb;
    let rm = ma % mb;
    assert(0 <= qm <= ma) by (nonlinear_arith)
        requires
            qm == ma / mb,
            ma >= 0,
            mb >= 1,
    ;
    let q: i128 = if (la < 0) == (lb < 0) {
        qm
    } else {
        -qm
    };
    let quotient: i64 = if q > i64::MAX as i128 {
        i64::MIN
    } else {
        q as i64
    };
    let remainder: i64 = if la < 0 {
        (-rm) as i64
    } else {
        rm as i64
    };
    (quotient, remainder)
}

/// Applies a binary operator to two evaluated operands.
pub fn eval_binary(op: BinaryOp, left: Value, right: Value) -> (r: Result<Value, RuntimeError>)
    ensures
        result_view(r) == binary_spec(op, left@, right@),
{
    match op {
        BinaryOp::Eq => Ok(Value::Bool(left.equals(&right))),
        BinaryOp::Ne => Ok(Value::Bool(!left.equals(&right))),
        BinaryOp::And | BinaryOp::Or => {
            let l = match left {
                Value::Bool(b) => b,
                _ => {
                    return Err(wrong_type("bool", &left, operation_name(op)));
                },
            };
            let r = match right {
                Value::Bool(b) => b,
                _ => {
                    return Err(wrong_type("bool", &right, operation_name(op)));
                },
            };
            let result = match op {
                BinaryOp::And => l && r,
                _ => l || r,
            };
            Ok(Value::Bool(result))
        },
        _ => {
            let l = match left {
                Value::Int(n) => n,
                _ => {
                    return Err(wrong_type("int", &left, operation_name(op)));
                },
            };
            let r = match right {
                Value::Int(n) => n,
                _ => {
                    return Err(wrong_type("int", &right, operation_name(op)));
                },
            };
            match op {
                BinaryOp::Add => Ok(Value::Int(l.wrapping_add(r))),
                BinaryOp::Sub => Ok(Value::Int(l.wrapping_sub(r))),
                BinaryOp::Mul => Ok(Value::Int(l.wrapping_mul(r))),
                BinaryOp::Div => {
                    if r == 0 {
                        return Err(RuntimeError::DivisionByZero);
                    }
                    Ok(Value::Int(div_rem(l, r).0))
                },
                BinaryOp::Mod => {
                    if r == 0 {
                        return Err(RuntimeError::DivisionByZero);
                    }
                    Ok(Value::Int(div_rem(l, r).1))
                },
                BinaryOp::Lt => Ok(Value::Bool(l < r)),
                BinaryOp::Le => Ok(Value::Bool(l <= r)),
                BinaryOp::Gt => Ok(Value::Bool(l > r)),
                _ => Ok(Value::Bool(l >= r)),
            }
        },
    }
}

/// Converts a value to the target type. Integers convert to themselves,
/// strings are read as signed decimal integers, booleans never convert to
/// integers; every value converts to its display form as a string.
pub fn eval_cast(val: Value, target: TypeName) -> (r: Result<Value, RuntimeError>)
    ensures
        result_view(r) == cast_spec(val@, target),
{
    match target {
        TypeName::Int => match val {
            Value::Int(n) => Ok(Value::Int(n)),
            Value::Str(s) => match parse_i64(s.as_str()) {
                Some(n) => Ok(Value::Int(n)),
                None => Err(RuntimeError::CastError { from_type: "str", to_type: "int", value: s }),
            },
            Value::Bool(_) => Err(
                RuntimeError::CastError { from_type: "bool", to_type: "int", value: val.to_string() },
            ),
        },
        TypeName::Str => Ok(Value::Str(val.to_string())),
    }
}

/// What one read gave: a line, or an error.
pub open spec fn read_view(r: Result<String, RuntimeError>) -> Result<Seq<char>, ErrorV> {
    match r {
        Ok(line) => Ok(line@),
        Err(e) => Err(e@),
    }
}

/// The value of an expression whose reads of input give `h[pos]`,
/// `h[pos + 1]`, ... in turn, with the position after its last read:
/// `input` takes the next read, operands are evaluated left to right, both
/// sides of `&&` and `||` included, and evaluation stops at the first
/// error.
pub open spec fn eval_at(
    e: Expr,
    env: Map<Seq<char>, ValueV>,
    h: Seq<Result<Seq<char>, ErrorV>>,
    pos: int,
) -> (Result<ValueV, ErrorV>, int)
    decreases e,
{
    match e {
        Expr::Input => if 0 <= pos < h.len() {
            match h[pos] {
                Ok(line) => (Ok(ValueV::Str(line)), pos + 1),
                Err(err) => (Err(err), pos + 1),
            }
        } else {
            (Err(ErrorV::IoError { message: Seq::empty() }), pos + 1)
        },
        Expr::Unary { op, operand } => {
            let (v, p) = eval_at(*operand, env, h, pos);
            (
                match v {
                    Ok(x) => unary_spec(op, x),
                    Err(err) => Err(err),
                },
                p,
            )
        },
        Expr::Binary { op, left, right } => {
            let (l, p1) = eval_at(*left, env, h, pos);
            match l {
                Err(err) => (Err(err), p1),
                Ok(lv) => {
                    let (r, p2) = eval_at(*right, env, h, p1);
                    (
                        match r {
                            Ok(rv) => binary_spec(op, lv, rv),
                            Err(err) => Err(err),
                        },
                        p2,
                    )
                },
            }
        },
        Expr::Cast { expr, target_type } => {
            let (v, p) = eval_at(*expr, env, h, pos);
            (
                match v {
                    Ok(x) => cast_spec(x, target_type),
                    Err(err) => Err(err),
                },
                p,
            )
        },
        _ => (eval_spec(e, env), pos),
    }
}

proof fn lemma_eval_at_advances(
    e: Expr,
    env: Map<Seq<char>, ValueV>,
    h: Seq<Result<Seq<char>, ErrorV>>,
    pos: int,
)
    ensures
        eval_at(e, env, h, pos).1 >= pos,
    decreases e,
{
    match e {
        Expr::Unary { operand, .. } => lemma_eval_at_advances(*operand, env, h, pos),
        Expr::Cast { expr, .. } => lemma_eval_at_advances(*expr, env, h, pos),
        Expr::Binary { left, right, .. } => {
            lemma_eval_at_advances(*left, env, h, pos);
            lemma_eval_at_advances(*right, env, h, eval_at(*left, env, h, pos).1);
        },
        _ => {},
    }
}

/// Reads that come later do not change an evaluation that has finished.
pub proof fn lemma_eval_at_extend(
    e: Expr,
    env: Map<Seq<char>, ValueV>,
    h: Seq<Result<Seq<char>, ErrorV>>,
    h2: Seq<Result<Seq<char>, ErrorV>>,
    pos: int,
)
    requires
        h.len() <= h2.len(),
        h2.take(h.len() as int) == h,
        eval_at(e, env, h, pos).1 <= h.len(),
    ensures
        eval_at(e, env, h2, pos) == eval_at(e, env, h, pos),
    decreases e,
{
    match e {
        Expr::Input => {
            if 0 <= pos < h.len() {
                assert(h2[pos] == h2.take(h.len() as int)[pos]);
            }
        },
        Expr::Unary { operand, .. } => lemma_eval_at_extend(*operand, env, h, h2, pos),
        Expr::Cast { expr, .. } => lemma_eval_at_extend(*expr, env, h, h2, pos),
        Expr::Binary { left, right, .. } => {
            let p1 = eval_at(*left, env, h, pos).1;
            lemma_eval_at_advances(*right, env, h, p1);
            lemma_eval_at_extend(*left, env, h, h2, pos);
            if eval_at(*left, env, h, pos).0 is Ok {
                lemma_eval_at_extend(*right, env, h, h2, p1);
            }
        },
        _ => {},
    }
}

/// Evaluates an expression, recording in `reads` what each read of input
/// gave. The result is the one `eval_at` gives over the reads this call
/// made, which are appended to `reads` in order: `input` yields the line
/// read or passes the reader's error on, and both sides of `&&` and `||`
/// are evaluated. An expression that reads no input has the value
/// `eval_spec` gives it and leaves the reader untouched.
pub fn eval_logged<R: InputReader>(
    expr: &Expr,
    env: &Environment,
    input_reader: &mut R,
    reads: &mut Ghost<Seq<Result<Seq<char>, ErrorV>>>,
) -> (r: Result<Value, RuntimeError>)
    ensures
        !uses_input(*expr) ==> result_view(r) == eval_spec(*expr, env@),
        !uses_input(*expr) ==> *final(input_reader) == *old(input_reader) && final(reads)@ == old(
            reads,
        )@,
        final(reads)@.len() >= old(reads)@.len(),
        final(reads)@.take(old(reads)@.len() as int) == old(reads)@,
        eval_at(*expr, env@, final(reads)@, old(reads)@.len() as int) == (
            result_view(r),
            final(reads)@.len() as int,
        ),
    decreases expr,
{
    proof {
        assert(reads@.take(reads@.len() as int) =~= reads@);
    }
    match expr {
        Expr::IntLit { value } => Ok(Value::Int(*value)),
        Expr::StrLit { value } => Ok(Value::Str(value.clone())),
        Expr::BoolLit { value } => Ok(Value::Bool(*value)),
        Expr::Variable { name } => match env.get(name.as_str()) {
            Ok(v) => Ok(v.clone()),
            Err(e) => Err(e),
        },
        Expr::Input => {
            let res = input_reader.read_line();
            proof {
                reads@ = reads@.push(read_view(res));
                assert(reads@.take(old(reads)@.len() as int) =~= old(reads)@);
            }
            match res {
                Ok(line) => Ok(Value::Str(line)),
                Err(e) => Err(e),
            }
        },
        Expr::Unary { op, operand } => match eval_logged(operand, env, input_reader, reads) {
            Ok(v) => eval_unary(*op, v),
            Err(e) => Err(e),
        },
        Expr::Binary { op, left, right } => {
            let ghost h0 = reads@;
            let l = match eval_logged(left, env, input_reader, reads) {
                Ok(v) => v,
                Err(e) => {
                    return Err(e);
                },
            };
            let ghost h1 = reads@;
            let res = eval_logged(right, env, input_reader, reads);
            proof {
                let h2 = reads@;
                assert(h2.take(h1.len() as int).take(h0.len() as int) =~= h2.take(h0.len() as int));
                lemma_eval_at_extend(**left, env@, h1, h2, h0.len() as int);
            }
            let r = match res {
                Ok(v) => v,
                Err(e) => {
                    return Err(e);
                },
            };
            eval_binary(*op, l, r)
        },
        Expr::Cast { expr, target_type } => match eval_logged(expr, env, input_reader, reads) {
            Ok(v) => eval_cast(v, *target_type),
            Err(e) => Err(e),
        },
    }
}

/// Evaluates an expression; see `eval_logged`, which also records what the
/// reads of input gave. Operands are evaluated left to right, both sides of
/// `&&` and `||` included, and the first error is returned. An expression
/// that reads no input has the value `eval_spec` gives it, and leaves the
/// reader untouched; `input` yields the line read as a string.
pub fn eval_expr<R: InputReader>(expr: &Expr, env: &Environment, input_reader: &mut R) -> (r:
    Result<Value, RuntimeError>)
    ensures
        !uses_input(*expr) ==> result_view(r) == eval_spec(*expr, env@),
        !uses_input(*expr) ==> *final(input_reader) == *old(input_reader),
        exists|h: Seq<Result<Seq<char>, ErrorV>>|
            eval_at(*expr, env@, h, 0) == (result_view(r), h.len() as int),
{
    let mut reads: Ghost<Seq<Result<Seq<char>, ErrorV>>> = Ghost(Seq::empty());
    let r = eval_logged(expr, env, input_reader, &mut reads);
    assert(eval_at(*expr, env@, reads@, 0) == (result_view(r), reads@.len() as int));
    r
}

} // verus!
