//! The statement executor.
use vstd::prelude::*;
use crate::ast::{Expr, Statement};
use crate::runtime::env::Environment;
use crate::runtime::eval::{eval_at, eval_logged, eval_spec, uses_input, InputReader};
use crate::runtime::value::{display_text, ErrorV, RuntimeError, Value, ValueV};

verus! {

/// A sink for program output: a primary stream, written by lines or by
/// pieces, and an error stream written by lines.
pub trait OutputWriter {
    fn write_stdout(&mut self, s: &str);

    fn write_stdout_no_newline(&mut self, s: &str);

    fn write_stderr(&mut self, s: &str);
}

/// The expression a statement evaluates.
pub open spec fn statement_expr(s: Statement) -> Expr {
    match s {
        Statement::Assign { value, .. } => value,
        Statement::Println { expr } => expr,
        Statement::Print { expr } => expr,
        Statement::Error { message } => message,
    }
}

/// Whether executing the statement reads input.
pub open spec fn statement_reads_input(s: Statement) -> bool {
    uses_input(statement_expr(s))
}

/// The variables after a statement that reads no input, or its error. Only
/// an assignment changes them; the three output statements leave them as
/// they are, and none of them fails once its expression has a value.
pub open spec fn exec_spec(s: Statement, env: Map<Seq<char>, ValueV>) -> Result<
    Map<Seq<char>, ValueV>,
    ErrorV,
> {
    match eval_spec(statement_expr(s), env) {
        Ok(v) => match s {
            Statement::Assign { variable, .. } => Ok(env.insert(variable@, v)),
            _ => Ok(env),
        },
        Err(e) => Err(e),
    }
}

/// The stream an output statement writes to.
#[derive(Debug, Clone, Copy, PartialEq, Eq, Structural)]
pub enum Stream {
    /// The primary stream, with a line end.
    Line,
    /// The primary stream, without a line end.
    Piece,
    /// The error stream, with a line end.
    Diagnostic,
}

/// Where a statement writes: `println` a line, `print` a piece, `error` a
/// diagnostic; an assignment writes nothing.
pub open spec fn stream_of(s: Statement) -> Option<Stream> {
    match s {
        Statement::Assign { .. } => None,
        Statement::Println { .. } => Some(Stream::Line),
        Statement::Print { .. } => Some(Stream::Piece),
        Statement::Error { .. } => Some(Stream::Diagnostic),
    }
}

/// What a statement whose expression has value `v` writes, and where: the
/// display form of `v` on the statement's stream, or nothing for an
/// assignment.
pub fn output_of(stmt: &Statement, v: &Value) -> (r: Option<(Stream, String)>)
    ensures
        match stream_of(*stmt) {
            Some(k) => r matches Some((k2, t)) && k2 == k && t@ == display_text(v@),
            None => r is None,
        },
{
    match stmt {
        Statement::Assign { .. } => None,
        Statement::Println { .. } => Some((Stream::Line, v.to_string())),
        Statement::Print { .. } => Some((Stream::Piece, v.to_string())),
        Statement::Error { .. } => Some((Stream::Diagnostic, v.to_string())),
    }
}

/// What a statement writes once its expression has value `v`: one pair
/// of stream and display text, or nothing for an assignment.
pub open spec fn emitted(s: Statement, v: ValueV) -> Seq<(Stream, Seq<char>)> {
    match stream_of(s) {
        Some(k) => seq![(k, display_text(v))],
        None => Seq::empty(),
    }
}

/// What a statement that reads no input writes: nothing if its expression
/// fails.
pub open spec fn exec_out(s: Statement, env: Map<Seq<char>, ValueV>) -> Seq<(Stream, Seq<char>)> {
    match eval_spec(statement_expr(s), env) {
        Ok(v) => emitted(s, v),
        Err(_) => Seq::empty(),
    }
}

/// The model of an optional piece of output.
pub open spec fn out_view(out: Option<(Stream, String)>) -> Seq<(Stream, Seq<char>)> {
    match out {
        Some((k, t)) => seq![(k, t@)],
        None => Seq::empty(),
    }
}

/// Hands a piece of output to the sink's method for its stream, and
/// records it in `log`, the record of everything handed to the sink.
fn write_output<W: OutputWriter>(
    output_writer: &mut W,
    log: &mut Ghost<Seq<(Stream, Seq<char>)>>,
    out: Option<(Stream, String)>,
)
    ensures
        final(log)@ == old(log)@ + out_view(out),
{
    let ghost pieces = out_view(out);
    match out {
        Some((Stream::Line, t)) => output_writer.write_stdout(t.as_str()),
        Some((Stream::Piece, t)) => output_writer.write_stdout_no_newline(t.as_str()),
        Some((Stream::Diagnostic, t)) => output_writer.write_stderr(t.as_str()),
        None => {},
    }
    proof {
        log@ = log@ + pieces;
    }
}

/// Whether the result, variables and output after a statement are those
/// its expression's value `ev` gives: an assignment binds its variable to
/// the value and writes nothing; an output statement writes `emitted`; an
/// error is passed on with nothing changed.
pub open spec fn exec_matches(
    s: Statement,
    ev: Result<ValueV, ErrorV>,
    r: Result<(), RuntimeError>,
    env: Map<Seq<char>, ValueV>,
    env_after: Map<Seq<char>, ValueV>,
    log: Seq<(Stream, Seq<char>)>,
    log_after: Seq<(Stream, Seq<char>)>,
) -> bool {
    match ev {
        Ok(v) => r is Ok && log_after == log + emitted(s, v) && env_after == match s {
            Statement::Assign { variable, .. } => env.insert(variable@, v),
            _ => env,
        },
        Err(e) => r is Err && r->Err_0@ == e && env_after == env && log_after == log,
    }
}

/// Executes one statement: an assignment stores its value, overwriting any
/// earlier binding; `println` and `print` write the display form to the
/// primary stream, with and without a line end; `error` writes it to the
/// error stream and does not stop execution. What is written is what
/// `output_of` gives for the statement and its value, and `log` records
/// it: one pair of stream and text for an output statement, nothing for an
/// assignment or on an error. On an error the
/// variables are unchanged; an assignment that succeeds binds its variable
/// and changes nothing else, whatever input it read.
pub fn exec_logged<R: InputReader, W: OutputWriter>(
    stmt: &Statement,
    env: &mut Environment,
    input_reader: &mut R,
    output_writer: &mut W,
    reads: &mut Ghost<Seq<Result<Seq<char>, ErrorV>>>,
    log: &mut Ghost<Seq<(Stream, Seq<char>)>>,
) -> (r: Result<(), RuntimeError>)
    ensures
        final(reads)@.len() >= old(reads)@.len(),
        final(reads)@.take(old(reads)@.len() as int) == old(reads)@,
        !statement_reads_input(*stmt) ==> final(reads)@ == old(reads)@,
        exec_matches(
            *stmt,
            eval_at(statement_expr(*stmt), old(env)@, final(reads)@, old(reads)@.len() as int).0,
            r,
            old(env)@,
            final(env)@,
            old(log)@,
            final(log)@,
        ),
        !statement_reads_input(*stmt) ==> final(log)@ == old(log)@ + exec_out(*stmt, old(env)@),
        r is Err ==> final(log)@ == old(log)@,
        stmt is Assign ==> final(log)@ == old(log)@,
        (!(stmt is Assign) && r is Ok) ==> exists|v: ValueV|
            final(log)@ == old(log)@ + emitted(*stmt, v),
        !statement_reads_input(*stmt) ==> match exec_spec(*stmt, old(env)@) {
            Ok(e) => r is Ok && final(env)@ == e,
            Err(e) => r matches Err(x) && x@ == e && final(env)@ == old(env)@,
        },
        !(stmt is Assign) ==> final(env)@ == old(env)@,
        r is Err ==> final(env)@ == old(env)@,
        (stmt is Assign && r is Ok) ==> exists|v: ValueV|
            final(env)@ == old(env)@.insert(stmt->Assign_variable@, v),
{
    match stmt {
        Statement::Assign { variable, value } => {
            let val = match eval_logged(value, env, input_reader, reads) {
                Ok(v) => v,
                Err(e) => {
                    return Err(e);
                },
            };
            let ghost v = val@;
            env.set(variable.clone(), val);
            assert(env@ == old(env)@.insert(stmt->Assign_variable@, v));
            assert(emitted(*stmt, v) =~= Seq::<(Stream, Seq<char>)>::empty());
            assert(log@ =~= old(log)@ + emitted(*stmt, v));
            Ok(())
        },
        Statement::Println { expr } => {
            let val = match eval_logged(expr, env, input_reader, reads) {
                Ok(v) => v,
                Err(e) => {
                    return Err(e);
                },
            };
            let ghost v = val@;
            let out = output_of(stmt, &val);
            assert(out_view(out) =~= emitted(*stmt, v));
            write_output(output_writer, log, out);
            Ok(())
        },
        Statement::Print { expr } => {
            let val = match eval_logged(expr, env, input_reader, reads) {
                Ok(v) => v,
                Err(e) => {
                    return Err(e);
                },
            };
            let ghost v = val@;
            let out = output_of(stmt, &val);
            assert(out_view(out) =~= emitted(*stmt, v));
            write_output(output_writer, log, out);
            Ok(())
        },
        Statement::Error { message } => {
            let val = match eval_logged(message, env, input_reader, reads) {
                Ok(v) => v,
                Err(e) => {
                    return Err(e);
                },
            };
            let ghost v = val@;
            let out = output_of(stmt, &val);
            assert(out_view(out) =~= emitted(*stmt, v));
            write_output(output_writer, log, out);
            Ok(())
        },
    }
}

/// Executes one statement; see `exec_logged`, which also records what is
/// handed to the sink.
pub fn exec_statement<R: InputReader, W: OutputWriter>(
    stmt: &Statement,
    env: &mut Environment,
    input_reader: &mut R,
    output_writer: &mut W,
) -> (r: Result<(), RuntimeError>)
    ensures
        !statement_reads_input(*stmt) ==> match exec_spec(*stmt, old(env)@) {
            Ok(e) => r is Ok && final(env)@ == e,
            Err(e) => r matches Err(x) && x@ == e && final(env)@ == old(env)@,
        },
        !(stmt is Assign) ==> final(env)@ == old(env)@,
        r is Err ==> final(env)@ == old(env)@,
        (stmt is Assign && r is Ok) ==> exists|v: ValueV|
            final(env)@ == old(env)@.insert(stmt->Assign_variable@, v),
{
    let mut reads: Ghost<Seq<Result<Seq<char>, ErrorV>>> = Ghost(Seq::empty());
    let mut log: Ghost<Seq<(Stream, Seq<char>)>> = Ghost(Seq::empty());
    exec_logged(stmt, env, input_reader, output_writer, &mut reads, &mut log)
}

} // verus!
