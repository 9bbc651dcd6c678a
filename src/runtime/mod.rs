//! The execution engine: values, the variable store, the evaluator, the
//! statement executor and the graph interpreter.
pub mod env;
pub mod eval;
pub mod exec;
pub mod interpreter;
pub mod value;

pub use env::Environment;
pub use eval::{eval_expr, InputReader};
pub use exec::{exec_statement, output_of, OutputWriter, Stream};
pub use interpreter::Interpreter;
pub use value::{RuntimeError, Value};
