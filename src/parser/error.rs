//! Errors of the analysis phase: syntax errors and validation errors.
use vstd::prelude::*;
use crate::text::concat;

verus! {

/// The text was rejected by the grammar.
#[derive(Debug)]
pub struct SyntaxError {
    message: String,
}

impl SyntaxError {
    pub fn new(message: &str) -> (r: SyntaxError)
        ensures
            r.text() == message@,
    {
        SyntaxError { message: message.to_owned() }
    }

    pub closed spec fn text(&self) -> Seq<char> {
        self.message@
    }

    /// The message of the error.
    pub fn to_string(&self) -> (r: String)
        ensures
            r@ == self.text(),
    {
        self.message.clone()
    }
}

/// The text parsed, but the graph breaks one of the structural rules.
#[derive(Debug)]
pub struct ValidationError {
    message: String,
}

impl ValidationError {
    pub fn new(message: &str) -> (r: ValidationError)
        ensures
            r.text() == message@,
    {
        ValidationError { message: message.to_owned() }
    }

    pub closed spec fn text(&self) -> Seq<char> {
        self.message@
    }

    /// The message of the error.
    pub fn to_string(&self) -> (r: String)
        ensures
            r@ == self.text(),
    {
        self.message.clone()
    }
}

/// A failure of the front end: either phase, kept apart.
#[derive(Debug)]
pub enum AnalysisError {
    Syntax(SyntaxError),
    Validation(ValidationError),
}

impl AnalysisError {
    /// The message, prefixed with the phase that failed.
    pub fn to_string(&self) -> (r: String)
        ensures
            self matches AnalysisError::Syntax(e) ==> r@ == "Syntax error: "@ + e.text(),
            self matches AnalysisError::Validation(e) ==> r@ == "Validation error: "@ + e.text(),
    {
        match self {
            AnalysisError::Syntax(e) => concat("Syntax error: ", e.message.as_str()),
            AnalysisError::Validation(e) => concat("Validation error: ", e.message.as_str()),
        }
    }
}

} // verus!
