//! A small language whose programs are flowchart diagrams.
//!
//! - `ast`: expressions, statements, nodes, edges and flowcharts, with
//!   their mathematical models.
//! - `parser`: the grammar of flowchart text, the construction of
//!   expression trees by precedence, the merge rule for repeated node
//!   definitions and the structural rules of a flowchart.
//! - `runtime`: values, the variable store, the evaluator, the statement
//!   executor and the graph interpreter.
//! - `laws`: properties of the language proved over the specifications.
//! - `text`: decimal notation and conversions between strings and
//!   characters.
pub mod ast;
pub mod laws;
pub mod parser;
pub mod runtime;
pub mod text;
