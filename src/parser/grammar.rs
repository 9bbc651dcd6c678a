//! The grammar of flowchart text, read by recursive descent over the
//! characters of the source. Every reader takes a position and returns
//! what it read with the position after it.
use vstd::prelude::*;
use crate::ast::{
    expr_view, label_view, node_view, statement_view, statements_view, BinaryOp, EdgeLabel, Expr,
    ExprV, LabelV, Node, NodeV, Statement, StatementV, TypeName, UnaryOp,
};
use crate::parser::error::SyntaxError;
use crate::parser::expr::{
    apply_unary, build_expr_with_precedence, build_v, lemma_build_view, lemma_wrap_view, views, wrap_v,
};
use crate::parser::lexical::{
    ascii_lower, equals_ignoring_case, is_blank, is_blank_char, is_white, is_white_char, is_letter, is_letter_char, unescape_spec,
    is_identifier, is_word_char, is_word_character, trim_spec, unescape_string,
};
use crate::text::{chars_of, concat, i64_of_text, is_digit, parse_i64, text_of};

verus! {

/// Whether `r` is a success that ends at or after `pos` and within `cs`.
pub open spec fn read_from<T>(r: Result<(T, usize), SyntaxError>, pos: int, len: int) -> bool {
    r matches Ok((_, p)) ==> pos <= p <= len
}

proof fn lemma_word_is_identifier(cs: Seq<char>, p: int, q: int)
    requires
        0 <= p < q <= cs.len(),
        is_letter(cs[p]),
        forall|k: int| p <= k < q ==> is_word_char(#[trigger] cs[k]),
    ensures
        is_identifier(cs.subrange(p, q)),
{
    let w = cs.subrange(p, q);
    assert forall|i: int| 0 <= i < w.len() implies is_word_char(#[trigger] w[i]) by {
        assert(w[i] == cs[p + i]);
    }
}

/// The first position at or after `pos` that does not hold a blank.
pub open spec fn next_token(cs: Seq<char>, pos: int) -> int
    decreases cs.len() - pos,
{
    if 0 <= pos < cs.len() && is_blank(cs[pos]) {
        next_token(cs, pos + 1)
    } else {
        pos
    }
}

/// The end of the run of word characters that starts at `pos`.
pub open spec fn word_end_at(cs: Seq<char>, pos: int) -> int
    decreases cs.len() - pos,
{
    if 0 <= pos < cs.len() && is_word_char(cs[pos]) {
        word_end_at(cs, pos + 1)
    } else {
        pos
    }
}

/// The end of the run of decimal digits that starts at `pos`.
pub open spec fn digits_end_at(cs: Seq<char>, pos: int) -> int
    decreases cs.len() - pos,
{
    if 0 <= pos < cs.len() && is_digit(cs[pos]) {
        digits_end_at(cs, pos + 1)
    } else {
        pos
    }
}

/// The position after the blanks that start at `pos`.
pub fn skip_blanks(cs: &Vec<char>, pos: usize) -> (r: usize)
    requires
        pos <= cs.len(),
    ensures
        r == next_token(cs@, pos as int),
        pos <= r <= cs.len(),
        forall|k: int| pos <= k < r ==> is_blank(#[trigger] cs@[k]),
        r < cs.len() ==> !is_blank(cs@[r as int]),
{
    let mut p = pos;
    while p < cs.len() && is_blank_char(cs[p])
        invariant
            pos <= p <= cs.len(),
            next_token(cs@, pos as int) == next_token(cs@, p as int),
            forall|k: int| pos <= k < p ==> is_blank(#[trigger] cs@[k]),
        decreases cs.len() - p,
    {
        p = p + 1;
    }
    p
}

/// The end of the run of word characters that starts at `pos`.
pub fn word_end(cs: &Vec<char>, pos: usize) -> (r: usize)
    requires
        pos <= cs.len(),
    ensures
        r == word_end_at(cs@, pos as int),
        pos <= r <= cs.len(),
        forall|k: int| pos <= k < r ==> is_word_char(#[trigger] cs@[k]),
        r < cs.len() ==> !is_word_char(cs@[r as int]),
{
    let mut p = pos;
    while p < cs.len() && is_word_character(cs[p])
        invariant
            pos <= p <= cs.len(),
            word_end_at(cs@, pos as int) == word_end_at(cs@, p as int),
            forall|k: int| pos <= k < p ==> is_word_char(#[trigger] cs@[k]),
        decreases cs.len() - p,
    {
        p = p + 1;
    }
    p
}

/// The characters from `a` up to `b`.
pub fn slice_chars(cs: &Vec<char>, a: usize, b: usize) -> (r: Vec<char>)
    requires
        a <= b <= cs.len(),
    ensures
        r@ == cs@.subrange(a as int, b as int),
{
    let mut out: Vec<char> = Vec::new();
    let mut k = a;
    while k < b
        invariant
            a <= k <= b <= cs.len(),
            out@ == cs@.subrange(a as int, k as int),
        decreases b - k,
    {
        out.push(cs[k]);
        k = k + 1;
        assert(out@ =~= cs@.subrange(a as int, k as int));
    }
    out
}

/// The string of the characters from `a` up to `b`.
pub fn slice_text(cs: &Vec<char>, a: usize, b: usize) -> (r: String)
    requires
        a <= b <= cs.len(),
    ensures
        r@ == cs@.subrange(a as int, b as int),
{
    let v = slice_chars(cs, a, b);
    text_of(v.as_slice())
}

/// Whether the text `lit` stands at `pos`.
pub fn looking_at(cs: &Vec<char>, pos: usize, lit: &str) -> (r: bool)
    requires
        pos <= cs.len(),
    ensures
        r == (pos + lit@.len() <= cs.len() && cs@.subrange(pos as int, pos + lit@.len()) == lit@),
{
    let l = chars_of(lit);
    if l.len() > cs.len() - pos {
        return false;
    }
    let mut k: usize = 0;
    while k < l.len()
        invariant
            0 <= k <= l.len(),
            pos + l.len() <= cs.len(),
            l@ == lit@,
            forall|j: int| 0 <= j < k ==> cs@[pos + j] == l@[j],
        decreases l.len() - k,
    {
        if cs[pos + k] != l[k] {
            assert(cs@.subrange(pos as int, pos + lit@.len())[k as int] != lit@[k as int]);
            return false;
        }
        k = k + 1;
    }
    assert(cs@.subrange(pos as int, pos + lit@.len()) =~= lit@);
    true
}

/// Whether the whole word from `a` to `b` is `lit`.
fn word_is(cs: &Vec<char>, a: usize, b: usize, lit: &str) -> (r: bool)
    requires
        a <= b <= cs.len(),
    ensures
        r == (cs@.subrange(a as int, b as int) == lit@),
{
    let s = slice_text(cs, a, b);
    let t = lit.to_owned();
    s == t
}

fn syntax_error(what: &str) -> (r: SyntaxError)
    ensures
        r.text() == what@,
{
    SyntaxError::new(what)
}

/// The binary operator written at `p`, with the position after it.
pub open spec fn binary_op_at(cs: Seq<char>, p: int) -> Option<(BinaryOp, int)> {
    if p < 0 || p >= cs.len() {
        None
    } else {
        let c = cs[p];
        let next = if p + 1 < cs.len() {
            cs[p + 1]
        } else {
            ' '
        };
        if c == '=' && next == '=' {
            Some((BinaryOp::Eq, p + 2))
        } else if c == '!' && next == '=' {
            Some((BinaryOp::Ne, p + 2))
        } else if c == '<' && next == '=' {
            Some((BinaryOp::Le, p + 2))
        } else if c == '>' && next == '=' {
            Some((BinaryOp::Ge, p + 2))
        } else if c == '&' && next == '&' {
            Some((BinaryOp::And, p + 2))
        } else if c == '|' && next == '|' {
            Some((BinaryOp::Or, p + 2))
        } else if c == '+' {
            Some((BinaryOp::Add, p + 1))
        } else if c == '-' {
            Some((BinaryOp::Sub, p + 1))
        } else if c == '*' {
            Some((BinaryOp::Mul, p + 1))
        } else if c == '/' {
            Some((BinaryOp::Div, p + 1))
        } else if c == '%' {
            Some((BinaryOp::Mod, p + 1))
        } else if c == '<' {
            Some((BinaryOp::Lt, p + 1))
        } else if c == '>' {
            Some((BinaryOp::Gt, p + 1))
        } else {
            None
        }
    }
}

/// The position of the quote that closes a string literal whose inside
/// starts at `p`. Inside, a backslash must be doubled and followed by an
/// escape letter, or by two more backslashes; a line end is not allowed.
pub open spec fn quote_end(cs: Seq<char>, p: int) -> Option<int>
    decreases cs.len() - p,
{
    if p < 0 || p >= cs.len() {
        None
    } else if cs[p] == '\'' {
        Some(p)
    } else if cs[p] == '\n' {
        None
    } else if cs[p] == '\\' {
        if cs.len() - p < 3 || cs[p + 1] != '\\' {
            None
        } else if cs[p + 2] == '\\' {
            if cs.len() - p < 4 {
                None
            } else {
                quote_end(cs, p + 4)
            }
        } else {
            quote_end(cs, p + 3)
        }
    } else {
        quote_end(cs, p + 1)
    }
}

/// The expression at `p`, given the operands `xs` and operators `ops`
/// already read: a unary expression, then either a binary operator and
/// the rest, or the end of the expression, where the operands are joined
/// by precedence.
pub open spec fn expr_from(cs: Seq<char>, p: int, xs: Seq<ExprV>, ops: Seq<BinaryOp>) -> Option<
    (ExprV, int),
>
    decreases cs.len() - p, 4int,
{
    if p < 0 || p > cs.len() {
        None
    } else {
        match unary_from(cs, p, Seq::empty()) {
            None => None,
            Some((e, q)) => match binary_op_at(cs, next_token(cs, q)) {
                Some((op, q3)) => if p < q3 <= cs.len() {
                    expr_from(cs, q3, xs.push(e), ops.push(op))
                } else {
                    None
                },
                None => Some((build_v(xs.push(e), ops), q)),
            },
        }
    }
}

/// A unary expression at `p` under the prefix operators `ops` already
/// read: more `!` and `-`, then a cast expression.
pub open spec fn unary_from(cs: Seq<char>, p: int, ops: Seq<UnaryOp>) -> Option<(ExprV, int)>
    decreases cs.len() - p, 3int,
{
    let p2 = next_token(cs, p);
    if p < 0 || p > cs.len() || p2 < p || p2 > cs.len() {
        None
    } else if p2 < cs.len() && cs[p2] == '!' {
        unary_from(cs, p2 + 1, ops.push(UnaryOp::Not))
    } else if p2 < cs.len() && cs[p2] == '-' {
        unary_from(cs, p2 + 1, ops.push(UnaryOp::Neg))
    } else {
        match cast_v(cs, p2) {
            Some((e, q)) => Some((wrap_v(ops, e), q)),
            None => None,
        }
    }
}

/// A primary expression at `p`, followed by `as int` or `as str` or not.
pub open spec fn cast_v(cs: Seq<char>, p: int) -> Option<(ExprV, int)>
    decreases cs.len() - p, 2int,
{
    match primary_v(cs, p) {
        None => None,
        Some((e, q)) => {
            let a = next_token(cs, q);
            if a == q || a >= cs.len() || !is_letter(cs[a]) {
                Some((e, q))
            } else {
                let b = word_end_at(cs, a);
                if cs.subrange(a, b) != "as"@ {
                    Some((e, q))
                } else {
                    let c = next_token(cs, b);
                    let d = word_end_at(cs, c);
                    if cs.subrange(c, d) == "int"@ {
                        Some((ExprV::Cast(Box::new(e), TypeName::Int), d))
                    } else if cs.subrange(c, d) == "str"@ {
                        Some((ExprV::Cast(Box::new(e), TypeName::Str), d))
                    } else {
                        None
                    }
                }
            }
        },
    }
}

/// A primary expression at `p0`, after blanks: a parenthesized expression,
/// a string literal, an integer literal in range, or a word, which is
/// `input`, `true`, `false` or a variable.
pub open spec fn primary_v(cs: Seq<char>, p0: int) -> Option<(ExprV, int)>
    decreases cs.len() - p0, 1int,
{
    let p = next_token(cs, p0);
    if p0 < 0 || p < p0 || p >= cs.len() {
        None
    } else if cs[p] == '(' {
        match expr_from(cs, p + 1, Seq::empty(), Seq::empty()) {
            Some((e, q)) => {
                let q2 = next_token(cs, q);
                if q2 < cs.len() && cs[q2] == ')' {
                    Some((e, q2 + 1))
                } else {
                    None
                }
            },
            None => None,
        }
    } else if cs[p] == '\'' {
        match quote_end(cs, p + 1) {
            Some(e) => match unescape_spec(cs.subrange(p + 1, e)) {
                Some(t) => Some((ExprV::StrLit(t), e + 1)),
                None => None,
            },
            None => None,
        }
    } else if is_digit(cs[p]) {
        let q = digits_end_at(cs, p);
        match i64_of_text(cs.subrange(p, q)) {
            Some(v) => Some((ExprV::IntLit(v), q)),
            None => None,
        }
    } else if is_letter(cs[p]) {
        let q = word_end_at(cs, p);
        let w = cs.subrange(p, q);
        Some(
            (
                if w == "input"@ {
                    ExprV::Input
                } else if w == "true"@ {
                    ExprV::BoolLit(true)
                } else if w == "false"@ {
                    ExprV::BoolLit(false)
                } else {
                    ExprV::Variable(w)
                },
                q,
            ),
        )
    } else {
        None
    }
}

/// The message for a primary expression at `p0` that is an integer literal
/// out of range, if it is one.
pub open spec fn literal_range_error(cs: Seq<char>, p0: int) -> Option<Seq<char>> {
    let p = next_token(cs, p0);
    if 0 <= p0 <= p < cs.len() && is_digit(cs[p]) {
        let digits = cs.subrange(p, digits_end_at(cs, p));
        if i64_of_text(digits) is None {
            Some("integer literal '"@ + digits + "' is out of range"@)
        } else {
            None
        }
    } else {
        None
    }
}

/// Whether a reader's result is the one the grammar gives.
pub open spec fn agrees(r: Result<(Expr, usize), SyntaxError>, g: Option<(ExprV, int)>) -> bool {
    match g {
        Some((e, q)) => r matches Ok((x, q2)) && expr_view(x) == e && q2 == q,
        None => r is Err,
    }
}

/// Reads a binary operator at `pos`.
fn read_binary_op(cs: &Vec<char>, pos: usize) -> (r: Option<(BinaryOp, usize)>)
    requires
        pos <= cs.len(),
    ensures
        r matches Some((_, p)) ==> pos < p <= cs.len(),
        match binary_op_at(cs@, pos as int) {
            Some((op, q)) => r matches Some((o, p)) && o == op && p == q,
            None => r is None,
        },
{
    if pos >= cs.len() {
        return None;
    }
    let c = cs[pos];
    let next = if pos + 1 < cs.len() {
        cs[pos + 1]
    } else {
        ' '
    };
    if c == '=' && next == '=' {
        Some((BinaryOp::Eq, pos + 2))
    } else if c == '!' && next == '=' {
        Some((BinaryOp::Ne, pos + 2))
    } else if c == '<' && next == '=' {
        Some((BinaryOp::Le, pos + 2))
    } else if c == '>' && next == '=' {
        Some((BinaryOp::Ge, pos + 2))
    } else if c == '&' && next == '&' {
        Some((BinaryOp::And, pos + 2))
    } else if c == '|' && next == '|' {
        Some((BinaryOp::Or, pos + 2))
    } else if c == '+' {
        Some((BinaryOp::Add, pos + 1))
    } else if c == '-' {
        Some((BinaryOp::Sub, pos + 1))
    } else if c == '*' {
        Some((BinaryOp::Mul, pos + 1))
    } else if c == '/' {
        Some((BinaryOp::Div, pos + 1))
    } else if c == '%' {
        Some((BinaryOp::Mod, pos + 1))
    } else if c == '<' {
        Some((BinaryOp::Lt, pos + 1))
    } else if c == '>' {
        Some((BinaryOp::Gt, pos + 1))
    } else {
        None
    }
}

/// Reads an expression: unary expressions joined by binary operators, then
/// arranged by precedence.
pub(crate) fn parse_expression(cs: &Vec<char>, pos: usize) -> (r: Result<(Expr, usize), SyntaxError>)
    requires
        pos <= cs.len(),
    ensures
        read_from(r, pos as int, cs.len() as int),
        agrees(r, expr_from(cs@, pos as int, Seq::empty(), Seq::empty())),
    decreases cs.len() - pos, 3int,
{
    let mut operands: Vec<Expr> = Vec::new();
    let mut operators: Vec<BinaryOp> = Vec::new();
    let mut p = pos;
    assert(views(operands@) =~= Seq::<ExprV>::empty());
    loop
        invariant
            pos <= p <= cs.len(),
            operands.len() == operators.len(),
            expr_from(cs@, pos as int, Seq::empty(), Seq::empty()) == expr_from(
                cs@,
                p as int,
                views(operands@),
                operators@,
            ),
        decreases cs.len() - p,
    {
        let (e, q) = match parse_unary_expr(cs, p) {
            Ok(x) => x,
            Err(err) => {
                return Err(err);
            },
        };
        let ghost before = views(operands@);
        operands.push(e);
        assert(views(operands@) =~= before.push(expr_view(e)));
        let q2 = skip_blanks(cs, q);
        match read_binary_op(cs, q2) {
            Some((op, q3)) => {
                operators.push(op);
                p = q3;
            },
            None => {
                proof {
                    lemma_build_view(operands@, operators@);
                }
                return Ok((build_expr_with_precedence(operands, operators), q));
            },
        }
    }
}

/// Reads prefix operators `!` and `-`, then a cast expression.
pub(crate) fn parse_unary_expr(cs: &Vec<char>, pos: usize) -> (r: Result<(Expr, usize), SyntaxError>)
    requires
        pos <= cs.len(),
    ensures
        read_from(r, pos as int, cs.len() as int),
        agrees(r, unary_from(cs@, pos as int, Seq::empty())),
    decreases cs.len() - pos, 2int,
{
    let mut ops: Vec<UnaryOp> = Vec::new();
    let mut p = skip_blanks(cs, pos);
    let ghost mut y: int = pos as int;
    assert(ops@ =~= Seq::<UnaryOp>::empty());
    while p < cs.len() && (cs[p] == '!' || cs[p] == '-')
        invariant
            pos <= y <= p <= cs.len(),
            p == next_token(cs@, y),
            unary_from(cs@, pos as int, Seq::empty()) == unary_from(cs@, y, ops@),
        decreases cs.len() - p,
    {
        if cs[p] == '!' {
            ops.push(UnaryOp::Not);
        } else {
            ops.push(UnaryOp::Neg);
        }
        proof {
            y = p + 1;
        }
        p = skip_blanks(cs, p + 1);
    }
    match parse_cast_expr(cs, p) {
        Ok((e, q)) => {
            proof {
                lemma_wrap_view(ops@, e);
            }
            Ok((apply_unary(ops, e), q))
        },
        Err(err) => Err(err),
    }
}

/// Reads a primary expression with an optional `as int` or `as str`.
pub(crate) fn parse_cast_expr(cs: &Vec<char>, pos: usize) -> (r: Result<(Expr, usize), SyntaxError>)
    requires
        pos <= cs.len(),
    ensures
        read_from(r, pos as int, cs.len() as int),
        agrees(r, cast_v(cs@, pos as int)),
    decreases cs.len() - pos, 1int,
{
    proof {
        reveal_strlit("as");
        reveal_strlit("int");
        reveal_strlit("str");
    }
    let (e, q) = match parse_primary(cs, pos) {
        Ok(x) => x,
        Err(err) => {
            return Err(err);
        },
    };
    let a = skip_blanks(cs, q);
    if a == q || a >= cs.len() || !is_letter_char(cs[a]) {
        return Ok((e, q));
    }
    let b = word_end(cs, a);
    if !word_is(cs, a, b, "as") {
        return Ok((e, q));
    }
    let c = skip_blanks(cs, b);
    let d = word_end(cs, c);
    if word_is(cs, c, d, "int") {
        Ok((Expr::Cast { expr: Box::new(e), target_type: TypeName::Int }, d))
    } else if word_is(cs, c, d, "str") {
        Ok((Expr::Cast { expr: Box::new(e), target_type: TypeName::Str }, d))
    } else {
        Err(syntax_error("expected 'int' or 'str' after 'as'"))
    }
}

/// Reads the inside of a string literal whose opening quote is at `pos`,
/// up to the closing quote.
fn string_literal_end(cs: &Vec<char>, pos: usize) -> (r: Result<usize, SyntaxError>)
    requires
        pos < cs.len(),
    ensures
        r matches Ok(p) ==> pos < p < cs.len() && cs@[p as int] == '\'',
        match quote_end(cs@, pos + 1) {
            Some(e) => r matches Ok(p) && p == e,
            None => r is Err,
        },
{
    let mut p = pos + 1;
    while p < cs.len() && cs[p] != '\''
        invariant
            pos < p <= cs.len(),
            quote_end(cs@, pos + 1) == quote_end(cs@, p as int),
        decreases cs.len() - p,
    {
        if cs[p] == '\n' {
            return Err(syntax_error("unterminated string literal"));
        }
        if cs[p] == '\\' {
            if cs.len() - p < 3 || cs[p + 1] != '\\' {
                return Err(syntax_error("invalid escape sequence in string literal"));
            }
            if cs[p + 2] == '\\' {
                if cs.len() - p < 4 {
                    return Err(syntax_error("invalid escape sequence in string literal"));
                }
                p = p + 4;
            } else {
                p = p + 3;
            }
        } else {
            p = p + 1;
        }
    }
    if p >= cs.len() {
        return Err(syntax_error("unterminated string literal"));
    }
    Ok(p)
}

/// Reads a parenthesized expression, `input`, a boolean, integer or string
/// literal, or a variable.
pub fn parse_primary(cs: &Vec<char>, pos: usize) -> (r: Result<(Expr, usize), SyntaxError>)
    requires
        pos <= cs.len(),
    ensures
        read_from(r, pos as int, cs.len() as int),
        agrees(r, primary_v(cs@, pos as int)),
        literal_range_error(cs@, pos as int) matches Some(m) ==> r matches Err(e) && e.text() == m,
    decreases cs.len() - pos, 0int,
{
    let p = skip_blanks(cs, pos);
    if p >= cs.len() {
        return Err(syntax_error("expected an expression"));
    }
    let c = cs[p];
    if c == '(' {
        let (e, q) = match parse_expression(cs, p + 1) {
            Ok(x) => x,
            Err(err) => {
                return Err(err);
            },
        };
        let q2 = skip_blanks(cs, q);
        if q2 < cs.len() && cs[q2] == ')' {
            Ok((e, q2 + 1))
        } else {
            Err(syntax_error("expected ')'"))
        }
    } else if c == '\'' {
        let end = match string_literal_end(cs, p) {
            Ok(x) => x,
            Err(err) => {
                return Err(err);
            },
        };
        let raw = slice_text(cs, p + 1, end);
        match unescape_string(raw.as_str()) {
            Ok(value) => Ok((Expr::StrLit { value }, end + 1)),
            Err(err) => Err(err),
        }
    } else if '0' <= c && c <= '9' {
        let mut q = p;
        while q < cs.len() && '0' <= cs[q] && cs[q] <= '9'
            invariant
                p <= q <= cs.len(),
                digits_end_at(cs@, p as int) == digits_end_at(cs@, q as int),
            decreases cs.len() - q,
        {
            q = q + 1;
        }
        let digits = slice_text(cs, p, q);
        match parse_i64(digits.as_str()) {
            Some(value) => Ok((Expr::IntLit { value }, q)),
            None => {
                let a = concat("integer literal '", digits.as_str());
                let b = concat(a.as_str(), "' is out of range");
                Err(SyntaxError::new(b.as_str()))
            },
        }
    } else if is_letter_char(c) {
        let q = word_end(cs, p);
        proof {
            reveal_strlit("input");
            reveal_strlit("true");
            reveal_strlit("false");
        }
        if word_is(cs, p, q, "input") {
            Ok((Expr::Input, q))
        } else if word_is(cs, p, q, "true") {
            Ok((Expr::BoolLit { value: true }, q))
        } else if word_is(cs, p, q, "false") {
            Ok((Expr::BoolLit { value: false }, q))
        } else {
            Ok((Expr::Variable { name: slice_text(cs, p, q) }, q))
        }
    } else {
        Err(syntax_error("expected an expression"))
    }
}

/// The statement at `p0`, after blanks: `w = e` when a word `w` is
/// followed by `=` and not `==`, else `println e`, `print e` or `error e`.
pub open spec fn statement_v(cs: Seq<char>, p0: int) -> Option<(StatementV, int)> {
    let p = next_token(cs, p0);
    if p >= cs.len() || !is_letter(cs[p]) {
        None
    } else {
        let q = word_end_at(cs, p);
        let w = cs.subrange(p, q);
        let a = next_token(cs, q);
        if a < cs.len() && cs[a] == '=' && !(a + 1 < cs.len() && cs[a + 1] == '=') {
            match expr_from(cs, a + 1, Seq::empty(), Seq::empty()) {
                Some((e, end)) => Some((StatementV::Assign(w, e), end)),
                None => None,
            }
        } else if w == "println"@ || w == "print"@ || w == "error"@ {
            match expr_from(cs, q, Seq::empty(), Seq::empty()) {
                Some((e, end)) => Some(
                    (
                        if w == "println"@ {
                            StatementV::Println(e)
                        } else if w == "print"@ {
                            StatementV::Print(e)
                        } else {
                            StatementV::Error(e)
                        },
                        end,
                    ),
                ),
                None => None,
            }
        } else {
            None
        }
    }
}

/// The statements at `p`, separated by `;`, after the statements `acc`
/// already read; the position returned is after the blanks that follow.
pub open spec fn statements_from(cs: Seq<char>, p: int, acc: Seq<StatementV>) -> Option<
    (Seq<StatementV>, int),
>
    decreases cs.len() - p,
{
    match statement_v(cs, p) {
        None => None,
        Some((st, q)) => {
            let q2 = next_token(cs, q);
            if q2 < cs.len() && cs[q2] == ';' {
                if p < q2 + 1 <= cs.len() {
                    statements_from(cs, q2 + 1, acc.push(st))
                } else {
                    None
                }
            } else {
                Some((acc.push(st), q2))
            }
        },
    }
}

/// Reads one statement: `println e`, `print e`, `error e` or `name = e`.
pub fn parse_statement(cs: &Vec<char>, pos: usize) -> (r: Result<(Statement, usize), SyntaxError>)
    requires
        pos <= cs.len(),
    ensures
        read_from(r, pos as int, cs.len() as int),
        r matches Ok((Statement::Assign { variable, .. }, _)) ==> is_identifier(variable@),
        match statement_v(cs@, pos as int) {
            Some((st, q)) => r matches Ok((x, q2)) && statement_view(x) == st && q2 == q,
            None => r is Err,
        },
{
    let p = skip_blanks(cs, pos);
    if p >= cs.len() || !is_letter_char(cs[p]) {
        return Err(syntax_error("expected a statement"));
    }
    let q = word_end(cs, p);
    proof {
        lemma_word_is_identifier(cs@, p as int, q as int);
    }
    let a = skip_blanks(cs, q);
    let assigns = a < cs.len() && cs[a] == '=' && !(a + 1 < cs.len() && cs[a + 1] == '=');
    proof {
        reveal_strlit("println");
        reveal_strlit("print");
        reveal_strlit("error");
    }
    if assigns {
        let variable = slice_text(cs, p, q);
        match parse_expression(cs, a + 1) {
            Ok((value, e)) => Ok((Statement::Assign { variable, value }, e)),
            Err(err) => Err(err),
        }
    } else if word_is(cs, p, q, "println") {
        match parse_expression(cs, q) {
            Ok((expr, e)) => Ok((Statement::Println { expr }, e)),
            Err(err) => Err(err),
        }
    } else if word_is(cs, p, q, "print") {
        match parse_expression(cs, q) {
            Ok((expr, e)) => Ok((Statement::Print { expr }, e)),
            Err(err) => Err(err),
        }
    } else if word_is(cs, p, q, "error") {
        match parse_expression(cs, q) {
            Ok((message, e)) => Ok((Statement::Error { message }, e)),
            Err(err) => Err(err),
        }
    } else {
        Err(syntax_error("expected '=' after a variable name"))
    }
}

/// Reads statements separated by `;`.
pub(crate) fn parse_statements(cs: &Vec<char>, pos: usize) -> (r: Result<(Vec<Statement>, usize), SyntaxError>)
    requires
        pos <= cs.len(),
    ensures
        read_from(r, pos as int, cs.len() as int),
        r matches Ok((v, _)) ==> v.len() >= 1,
        match statements_from(cs@, pos as int, Seq::empty()) {
            Some((sts, q)) => r matches Ok((v, q2)) && statements_view(v@) == sts && q2 == q,
            None => r is Err,
        },
{
    let mut statements: Vec<Statement> = Vec::new();
    let mut p = pos;
    assert(statements_view(statements@) =~= Seq::<StatementV>::empty());
    loop
        invariant
            pos <= p <= cs.len(),
            statements_from(cs@, pos as int, Seq::empty()) == statements_from(
                cs@,
                p as int,
                statements_view(statements@),
            ),
        decreases cs.len() - p,
    {
        let (st, q) = match parse_statement(cs, p) {
            Ok(x) => x,
            Err(err) => {
                return Err(err);
            },
        };
        let ghost before = statements_view(statements@);
        statements.push(st);
        assert(statements_view(statements@) =~= before.push(statement_view(st)));
        let q2 = skip_blanks(cs, q);
        if q2 < cs.len() && cs[q2] == ';' {
            p = q2 + 1;
        } else {
            return Ok((statements, q2));
        }
    }
}

/// The position after the character `c`, expected at `pos` after blanks.
pub open spec fn expect_at(cs: Seq<char>, pos: int, c: char) -> Option<int> {
    let p = next_token(cs, pos);
    if p < cs.len() && cs[p] == c {
        Some(p + 1)
    } else {
        None
    }
}

/// The position of the first `stop` at or after `p` on the same line.
pub open spec fn find_on_line_at(cs: Seq<char>, p: int, stop: char) -> Option<int>
    decreases cs.len() - p,
{
    if p < 0 || p >= cs.len() {
        None
    } else if cs[p] == stop {
        Some(p)
    } else if cs[p] == '\n' {
        None
    } else {
        find_on_line_at(cs, p + 1, stop)
    }
}

/// The label of a stadium shape after its `([`, and the position after
/// the closing `])`: a quoted text as it stands, or an unquoted text
/// without surrounding blanks.
pub open spec fn stadium_v(cs: Seq<char>, pos: int) -> Option<(Seq<char>, int)> {
    let p = next_token(cs, pos);
    let body: Option<(Seq<char>, int)> = if p < cs.len() && cs[p] == '"' {
        match find_on_line_at(cs, p + 1, '"') {
            Some(e) => Some((cs.subrange(p + 1, e), e + 1)),
            None => None,
        }
    } else {
        match find_on_line_at(cs, p, ']') {
            Some(e) => Some((trim_spec(cs.subrange(p, e)), e)),
            None => None,
        }
    };
    match body {
        None => None,
        Some((t, q)) => match expect_at(cs, q, ']') {
            Some(q2) => if q2 < cs.len() && cs[q2] == ')' {
                Some((t, q2 + 1))
            } else {
                None
            },
            None => None,
        },
    }
}

/// The model of an optional node.
pub open spec fn node_opt_view(n: Option<Node>) -> Option<NodeV> {
    match n {
        Some(x) => Some(node_view(x)),
        None => None,
    }
}

/// The node reference at `pos`, after blanks: its identifier `w` and the
/// node it defines, if any. `Start` and `End` define their node, with the
/// label of a stadium shape `([...])` right after the word or without one;
/// `w[...]` defines a process node with the statements inside the brackets,
/// quoted or not; `w{...?}` defines a condition node likewise; a bare `w`
/// defines nothing.
pub open spec fn node_ref_v(cs: Seq<char>, pos: int) -> Option<((Seq<char>, Option<NodeV>), int)> {
    let p = next_token(cs, pos);
    if p >= cs.len() || !is_letter(cs[p]) {
        None
    } else {
        let q = word_end_at(cs, p);
        let w = cs.subrange(p, q);
        if w == "Start"@ || w == "End"@ {
            let lab: Option<(Option<Seq<char>>, int)> = if q + 2 <= cs.len() && cs.subrange(q, q + 2)
                == "(["@ {
                match stadium_v(cs, q + 2) {
                    Some((t, e)) => Some((Some(t), e)),
                    None => None,
                }
            } else {
                Some((None, q))
            };
            match lab {
                None => None,
                Some((l, e)) => Some(
                    (
                        (
                            w,
                            Some(
                                if w == "Start"@ {
                                    NodeV::Start(l)
                                } else {
                                    NodeV::End(l)
                                },
                            ),
                        ),
                        e,
                    ),
                ),
            }
        } else if q < cs.len() && cs[q] == '[' {
            let s0 = next_token(cs, q + 1);
            let quoted = s0 < cs.len() && cs[s0] == '"';
            let s = if quoted {
                s0 + 1
            } else {
                s0
            };
            match statements_from(cs, s, Seq::empty()) {
                None => None,
                Some((sts, e)) => {
                    let e1 = if quoted {
                        expect_at(cs, e, '"')
                    } else {
                        Some(e)
                    };
                    match e1 {
                        None => None,
                        Some(e2) => match expect_at(cs, e2, ']') {
                            None => None,
                            Some(e3) => Some(((w, Some(NodeV::Process(w, sts))), e3)),
                        },
                    }
                },
            }
        } else if q < cs.len() && cs[q] == '{' {
            let s0 = next_token(cs, q + 1);
            let quoted = s0 < cs.len() && cs[s0] == '"';
            let s = if quoted {
                s0 + 1
            } else {
                s0
            };
            match expr_from(cs, s, Seq::empty(), Seq::empty()) {
                None => None,
                Some((c, e)) => match expect_at(cs, e, '?') {
                    None => None,
                    Some(e1) => {
                        let e2 = if quoted {
                            expect_at(cs, e1, '"')
                        } else {
                            Some(e1)
                        };
                        match e2 {
                            None => None,
                            Some(e3) => match expect_at(cs, e3, '}') {
                                None => None,
                                Some(e4) => Some(((w, Some(NodeV::Condition(w, c))), e4)),
                            },
                        }
                    },
                },
            }
        } else {
            Some(((w, None), q))
        }
    }
}

/// Expects the character `c` at `pos`, after blanks; returns the position
/// after it.
fn expect_char(cs: &Vec<char>, pos: usize, c: char, what: &str) -> (r: Result<usize, SyntaxError>)
    requires
        pos <= cs.len(),
    ensures
        r matches Ok(p) ==> pos < p <= cs.len(),
        match expect_at(cs@, pos as int, c) {
            Some(p) => r matches Ok(x) && x == p,
            None => r is Err,
        },
{
    let p = skip_blanks(cs, pos);
    if p < cs.len() && cs[p] == c {
        Ok(p + 1)
    } else {
        Err(syntax_error(what))
    }
}

/// The range left of `a..b` once blanks are removed at both ends.
fn trim_range(cs: &Vec<char>, a: usize, b: usize) -> (r: (usize, usize))
    requires
        a <= b <= cs.len(),
    ensures
        a <= r.0 <= r.1 <= b,
        cs@.subrange(r.0 as int, r.1 as int) == trim_spec(cs@.subrange(a as int, b as int)),
{
    let mut x = a;
    let mut y = b;
    while x < y && is_white_char(cs[x])
        invariant
            a <= x <= y <= b <= cs.len(),
            trim_spec(cs@.subrange(a as int, b as int)) == trim_spec(cs@.subrange(x as int, b as int)),
        decreases y - x,
    {
        assert(cs@.subrange(x as int, b as int).skip(1) =~= cs@.subrange(x + 1, b as int));
        x = x + 1;
    }
    while x < y && is_white_char(cs[y - 1])
        invariant
            a <= x <= y <= b <= cs.len(),
            x < y ==> !is_white(cs@[x as int]),
            trim_spec(cs@.subrange(a as int, b as int)) == trim_spec(cs@.subrange(x as int, y as int)),
        decreases y - x,
    {
        assert(cs@.subrange(x as int, y as int).drop_last() =~= cs@.subrange(x as int, y - 1));
        y = y - 1;
    }
    (x, y)
}

/// The position of the first `stop` character at or after `pos` on the same
/// line, if any.
fn find_on_line(cs: &Vec<char>, pos: usize, stop: char) -> (r: Option<usize>)
    requires
        pos <= cs.len(),
    ensures
        r matches Some(p) ==> pos <= p < cs.len() && cs@[p as int] == stop,
        match find_on_line_at(cs@, pos as int, stop) {
            Some(p) => r matches Some(x) && x == p,
            None => r is None,
        },
{
    let mut p = pos;
    while p < cs.len() && cs[p] != stop && cs[p] != '\n'
        invariant
            pos <= p <= cs.len(),
            find_on_line_at(cs@, pos as int, stop) == find_on_line_at(cs@, p as int, stop),
        decreases cs.len() - p,
    {
        p = p + 1;
    }
    if p < cs.len() && cs[p] == stop {
        Some(p)
    } else {
        None
    }
}

/// The label of an edge: `Yes` or `No` in any letter case, else the text
/// itself.
pub open spec fn edge_label_spec(t: Seq<char>) -> Option<bool> {
    if equals_ignoring_case(t, "yes"@) {
        Some(true)
    } else if equals_ignoring_case(t, "no"@) {
        Some(false)
    } else {
        None
    }
}

fn lower_char(c: char) -> (r: char)
    ensures
        r == ascii_lower(c),
{
    if 'A' <= c && c <= 'Z' {
        ((c as u8) + 32) as char
    } else {
        c
    }
}

fn equals_word(t: &Vec<char>, word: &str) -> (r: bool)
    ensures
        r == equals_ignoring_case(t@, word@),
{
    let w = chars_of(word);
    if t.len() != w.len() {
        return false;
    }
    let mut k: usize = 0;
    while k < t.len()
        invariant
            0 <= k <= t.len(),
            t.len() == w.len(),
            w@ == word@,
            forall|j: int| 0 <= j < k ==> ascii_lower(#[trigger] t@[j]) == w@[j],
        decreases t.len() - k,
    {
        if lower_char(t[k]) != w[k] {
            return false;
        }
        k = k + 1;
    }
    true
}

/// Classifies the text between the pipes of an edge label: blanks around it
/// are dropped, `Yes` and `No` are recognized in any letter case, anything
/// else is kept as a custom label.
pub fn parse_edge_label(cs: &Vec<char>, a: usize, b: usize) -> (r: EdgeLabel)
    requires
        a <= b <= cs.len(),
    ensures
        ({
            let t = trim_spec(cs@.subrange(a as int, b as int));
            match edge_label_spec(t) {
                Some(true) => r is Yes,
                Some(false) => r is No,
                None => r matches EdgeLabel::Custom(s) && s@ == t,
            }
        }),
{
    let (x, y) = trim_range(cs, a, b);
    let t = slice_chars(cs, x, y);
    if equals_word(&t, "yes") {
        EdgeLabel::Yes
    } else if equals_word(&t, "no") {
        EdgeLabel::No
    } else {
        EdgeLabel::Custom(text_of(t.as_slice()))
    }
}

/// Reads the label of a stadium shape after its opening `([`, up to and
/// including the closing `])`.
fn parse_stadium_label(cs: &Vec<char>, pos: usize) -> (r: Result<(String, usize), SyntaxError>)
    requires
        pos <= cs.len(),
    ensures
        read_from(r, pos as int, cs.len() as int),
        match stadium_v(cs@, pos as int) {
            Some((t, q)) => r matches Ok((x, q2)) && x@ == t && q2 == q,
            None => r is Err,
        },
{
    let p = skip_blanks(cs, pos);
    let (text, q) = if p < cs.len() && cs[p] == '"' {
        match find_on_line(cs, p + 1, '"') {
            Some(e) => (slice_text(cs, p + 1, e), e + 1),
            None => {
                return Err(syntax_error("unterminated quoted label"));
            },
        }
    } else {
        match find_on_line(cs, p, ']') {
            Some(e) => {
                let (x, y) = trim_range(cs, p, e);
                (slice_text(cs, x, y), e)
            },
            None => {
                return Err(syntax_error("expected '])'"));
            },
        }
    };
    let q2 = match expect_char(cs, q, ']', "expected '])'") {
        Ok(x) => x,
        Err(err) => {
            return Err(err);
        },
    };
    if q2 < cs.len() && cs[q2] == ')' {
        Ok((text, q2 + 1))
    } else {
        Err(syntax_error("expected '])'"))
    }
}

/// Reads a node reference: an identifier with an optional shape. `Start`
/// and `End` always define their node, with a stadium label or without;
/// other identifiers define one with `[statements]` or `{condition?}` and
/// are bare references otherwise.
pub fn parse_node_ref(cs: &Vec<char>, pos: usize) -> (r: Result<((String, Option<Node>), usize), SyntaxError>)
    requires
        pos <= cs.len(),
    ensures
        read_from(r, pos as int, cs.len() as int),
        r matches Ok(((id, n), _)) ==> (n matches Some(node) ==> crate::ast::node_id(node) == id@),
        r matches Ok(((id, _), _)) ==> is_identifier(id@),
        match node_ref_v(cs@, pos as int) {
            Some(((w, n), q)) => r matches Ok(((id, m), q2)) && id@ == w && node_opt_view(m) == n
                && q2 == q,
            None => r is Err,
        },
{
    let p = skip_blanks(cs, pos);
    if p >= cs.len() || !is_letter_char(cs[p]) {
        return Err(syntax_error("expected a node identifier"));
    }
    let q = word_end(cs, p);
    proof {
        lemma_word_is_identifier(cs@, p as int, q as int);
    }
    let id = slice_text(cs, p, q);
    let is_start = word_is(cs, p, q, "Start");
    let is_end = word_is(cs, p, q, "End");
    if is_start || is_end {
        proof {
            reveal_strlit("([");
        }
        let (label, e) = if looking_at(cs, q, "([") {
            match parse_stadium_label(cs, q + 2) {
                Ok((t, e)) => (Some(t), e),
                Err(err) => {
                    return Err(err);
                },
            }
        } else {
            (None, q)
        };
        proof {
            reveal_strlit("Start");
            reveal_strlit("End");
        }
        let node = if is_start {
            Node::Start { label }
        } else {
            Node::End { label }
        };
        return Ok(((id, Some(node)), e));
    }
    if q < cs.len() && cs[q] == '[' {
        let mut s = skip_blanks(cs, q + 1);
        let quoted = s < cs.len() && cs[s] == '"';
        if quoted {
            s = s + 1;
        }
        let (statements, mut e) = match parse_statements(cs, s) {
            Ok(x) => x,
            Err(err) => {
                return Err(err);
            },
        };
        if quoted {
            e = match expect_char(cs, e, '"', "expected '\"'") {
                Ok(x) => x,
                Err(err) => {
                    return Err(err);
                },
            };
        }
        e = match expect_char(cs, e, ']', "expected ']'") {
            Ok(x) => x,
            Err(err) => {
                return Err(err);
            },
        };
        let node_name = id.clone();
        Ok(((id, Some(Node::Process { id: node_name, statements })), e))
    } else if q < cs.len() && cs[q] == '{' {
        let mut s = skip_blanks(cs, q + 1);
        let quoted = s < cs.len() && cs[s] == '"';
        if quoted {
            s = s + 1;
        }
        let (condition, mut e) = match parse_expression(cs, s) {
            Ok(x) => x,
            Err(err) => {
                return Err(err);
            },
        };
        e = match expect_char(cs, e, '?', "expected '?' after a condition") {
            Ok(x) => x,
            Err(err) => {
                return Err(err);
            },
        };
        if quoted {
            e = match expect_char(cs, e, '"', "expected '\"'") {
                Ok(x) => x,
                Err(err) => {
                    return Err(err);
                },
            };
        }
        e = match expect_char(cs, e, '}', "expected '}'") {
            Ok(x) => x,
            Err(err) => {
                return Err(err);
            },
        };
        let node_name = id.clone();
        Ok(((id, Some(Node::Condition { id: node_name, condition })), e))
    } else {
        Ok(((id, None), q))
    }
}

/// The model of a line: its endpoints, label and node definitions.
pub struct LineV {
    pub from_id: Seq<char>,
    pub to_id: Seq<char>,
    pub label: Option<LabelV>,
    pub from_node: Option<NodeV>,
    pub to_node: Option<NodeV>,
}

/// The model of a parsed line.
pub open spec fn line_view(l: ParsedLine) -> LineV {
    LineV {
        from_id: l.from_id@,
        to_id: l.to_id@,
        label: label_view(l.label),
        from_node: node_opt_view(l.from_node),
        to_node: node_opt_view(l.to_node),
    }
}

/// The end of the run of dashes that starts at `pos`.
pub open spec fn dashes_end_at(cs: Seq<char>, pos: int) -> int
    decreases cs.len() - pos,
{
    if 0 <= pos < cs.len() && cs[pos] == '-' {
        dashes_end_at(cs, pos + 1)
    } else {
        pos
    }
}

/// The label that a trimmed label text stands for.
pub open spec fn label_of(t: Seq<char>) -> LabelV {
    match edge_label_spec(t) {
        Some(true) => LabelV::Yes,
        Some(false) => LabelV::No,
        None => LabelV::Custom(t),
    }
}

/// The line at `pos`: a node reference, blanks, an arrow of two or more
/// dashes and `>`, blanks, an optional `|label|`, and a node reference.
pub open spec fn line_v(cs: Seq<char>, pos: int) -> Option<(LineV, int)> {
    match node_ref_v(cs, pos) {
        None => None,
        Some(((fid, fnode), p)) => {
            let a0 = next_token(cs, p);
            let a = dashes_end_at(cs, a0);
            if a - a0 < 2 || a >= cs.len() || cs[a] != '>' {
                None
            } else {
                let b = next_token(cs, a + 1);
                let lab: Option<(Option<LabelV>, int)> = if b < cs.len() && cs[b] == '|' {
                    match find_on_line_at(cs, b + 1, '|') {
                        Some(e) => Some((Some(label_of(trim_spec(cs.subrange(b + 1, e)))), e + 1)),
                        None => None,
                    }
                } else {
                    Some((None, b))
                };
                match lab {
                    None => None,
                    Some((l, b2)) => match node_ref_v(cs, b2) {
                        None => None,
                        Some(((tid, tnode), q)) => Some(
                            (
                                LineV {
                                    from_id: fid,
                                    to_id: tid,
                                    label: l,
                                    from_node: fnode,
                                    to_node: tnode,
                                },
                                q,
                            ),
                        ),
                    },
                }
            }
        },
    }
}

/// One edge line: its endpoints, its label and the node definitions on it.
pub struct ParsedLine {
    pub from_id: String,
    pub to_id: String,
    pub label: Option<EdgeLabel>,
    pub from_node: Option<Node>,
    pub to_node: Option<Node>,
}

/// Whether the endpoints of a line are identifiers and its node
/// definitions carry them.
pub open spec fn line_consistent(l: ParsedLine) -> bool {
    &&& is_identifier(l.from_id@)
    &&& is_identifier(l.to_id@)
    &&& (l.from_node matches Some(n) ==> crate::ast::node_id(n) == l.from_id@)
    &&& (l.to_node matches Some(n) ==> crate::ast::node_id(n) == l.to_id@)
}

/// Reads an edge line: a node reference, an arrow of two or more dashes and
/// `>`, an optional `|label|`, and a second node reference.
pub fn parse_line(cs: &Vec<char>, pos: usize) -> (r: Result<(ParsedLine, usize), SyntaxError>)
    requires
        pos <= cs.len(),
    ensures
        read_from(r, pos as int, cs.len() as int),
        r matches Ok((l, p)) ==> line_consistent(l) && pos < p,
        match line_v(cs@, pos as int) {
            Some((lv, q)) => r matches Ok((l, q2)) && line_view(l) == lv && q2 == q,
            None => r is Err,
        },
{
    let ((from_id, from_node), p) = match parse_node_ref(cs, pos) {
        Ok(x) => x,
        Err(err) => {
            return Err(err);
        },
    };
    let mut a = skip_blanks(cs, p);
    let dash_start = a;
    while a < cs.len() && cs[a] == '-'
        invariant
            pos <= dash_start <= a <= cs.len(),
            forall|i: int| dash_start <= i < a ==> #[trigger] cs@[i] == '-',
            dashes_end_at(cs@, dash_start as int) == dashes_end_at(cs@, a as int),
        decreases cs.len() - a,
    {
        a = a + 1;
    }
    if a - dash_start < 2 || a >= cs.len() || cs[a] != '>' {
        return Err(syntax_error("expected an arrow '-->'"));
    }
    let mut b = skip_blanks(cs, a + 1);
    let mut label = None;
    if b < cs.len() && cs[b] == '|' {
        match find_on_line(cs, b + 1, '|') {
            Some(e) => {
                label = Some(parse_edge_label(cs, b + 1, e));
                b = e + 1;
            },
            None => {
                return Err(syntax_error("unterminated edge label"));
            },
        }
    }
    let ((to_id, to_node), q) = match parse_node_ref(cs, b) {
        Ok(x) => x,
        Err(err) => {
            return Err(err);
        },
    };
    Ok((ParsedLine { from_id, to_id, label, from_node, to_node }, q))
}

/// The end of the line that holds `p`.
pub open spec fn line_end_at(cs: Seq<char>, p: int) -> int
    decreases cs.len() - p,
{
    if 0 <= p < cs.len() && cs[p] != '\n' {
        line_end_at(cs, p + 1)
    } else {
        p
    }
}

/// Whether a `%%` comment starts at `q`.
pub open spec fn comment_at(cs: Seq<char>, q: int) -> bool {
    q + "%%"@.len() <= cs.len() && cs.subrange(q, q + "%%"@.len()) == "%%"@
}

/// The position after blanks, empty lines and comment lines from `p`.
pub open spec fn skip_gap_at(cs: Seq<char>, p: int) -> int
    decreases cs.len() - p,
{
    let q0 = next_token(cs, p);
    let q = if comment_at(cs, q0) {
        line_end_at(cs, q0)
    } else {
        q0
    };
    if 0 <= p <= q < cs.len() && cs[q] == '\n' {
        skip_gap_at(cs, q + 1)
    } else {
        q
    }
}

/// The end of the line from `p`, when only blanks and a comment are left
/// on it.
pub open spec fn finish_line_at(cs: Seq<char>, p: int) -> Option<int> {
    let q = next_token(cs, p);
    if comment_at(cs, q) {
        Some(line_end_at(cs, q))
    } else if q == cs.len() || (0 <= q < cs.len() && cs[q] == '\n') {
        Some(q)
    } else {
        None
    }
}

/// The position of the end of the line that holds `pos`.
pub(crate) fn line_end(cs: &Vec<char>, pos: usize) -> (r: usize)
    requires
        pos <= cs.len(),
    ensures
        pos <= r <= cs.len(),
        r < cs.len() ==> cs@[r as int] == '\n',
        r == line_end_at(cs@, pos as int),
{
    let mut p = pos;
    while p < cs.len() && cs[p] != '\n'
        invariant
            pos <= p <= cs.len(),
            line_end_at(cs@, pos as int) == line_end_at(cs@, p as int),
        decreases cs.len() - p,
    {
        p = p + 1;
    }
    p
}

/// Skips blanks, empty lines and comment lines; a comment runs from `%%` to
/// the end of its line.
pub(crate) fn skip_gap(cs: &Vec<char>, pos: usize) -> (r: usize)
    requires
        pos <= cs.len(),
    ensures
        pos <= r <= cs.len(),
        r == skip_gap_at(cs@, pos as int),
{
    let mut p = pos;
    loop
        invariant
            pos <= p <= cs.len(),
            skip_gap_at(cs@, pos as int) == skip_gap_at(cs@, p as int),
        decreases cs.len() - p,
    {
        let mut q = skip_blanks(cs, p);
        if looking_at(cs, q, "%%") {
            q = line_end(cs, q);
        }
        if q < cs.len() && cs[q] == '\n' {
            p = q + 1;
        } else {
            return q;
        }
    }
}

/// Checks that only blanks and a comment follow `pos` on its line; returns
/// the end of the line.
pub(crate) fn finish_line(cs: &Vec<char>, pos: usize) -> (r: Result<usize, SyntaxError>)
    requires
        pos <= cs.len(),
    ensures
        r matches Ok(p) ==> pos <= p <= cs.len(),
        match finish_line_at(cs@, pos as int) {
            Some(p) => r matches Ok(x) && x == p,
            None => r is Err,
        },
{
    let q = skip_blanks(cs, pos);
    if looking_at(cs, q, "%%") {
        return Ok(line_end(cs, q));
    }
    if q == cs.len() || cs[q] == '\n' {
        Ok(q)
    } else {
        Err(syntax_error("unexpected text at the end of a line"))
    }
}

} // verus!
