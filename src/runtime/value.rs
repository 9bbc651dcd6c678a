//! Runtime values and runtime errors.
use vstd::prelude::*;
use crate::text::{concat, decimal_text, int_to_text};

verus! {

/// A value produced by evaluation.
#[derive(Debug, PartialEq)]
pub enum Value {
    Int(i64),
    Str(String),
    Bool(bool),
}

/// The tag of a value's variant, as used in diagnostics.
pub open spec fn type_tag(v: ValueV) -> Seq<char> {
    match v {
        ValueV::Int(_) => "int"@,
        ValueV::Str(_) => "str"@,
        ValueV::Bool(_) => "bool"@,
    }
}

/// The display text of a boolean.
pub open spec fn bool_text(b: bool) -> Seq<char> {
    if b {
        "true"@
    } else {
        "false"@
    }
}

/// The display form of a value: decimal for integers, the text itself for
/// strings, `true` or `false` for booleans.
pub open spec fn display_text(v: ValueV) -> Seq<char> {
    match v {
        ValueV::Int(n) => decimal_text(n as int),
        ValueV::Str(s) => s,
        ValueV::Bool(b) => bool_text(b),
    }
}

/// The mathematical model of a value: texts as character sequences.
pub enum ValueV {
    Int(i64),
    Str(Seq<char>),
    Bool(bool),
}

impl View for Value {
    type V = ValueV;

    open spec fn view(&self) -> ValueV {
        match self {
            Value::Int(n) => ValueV::Int(*n),
            Value::Str(s) => ValueV::Str(s@),
            Value::Bool(b) => ValueV::Bool(*b),
        }
    }
}

/// The mathematical model of a runtime error.
pub enum ErrorV {
    UndefinedVariable { name: Seq<char> },
    TypeError { expected: Seq<char>, actual: Seq<char>, operation: Seq<char> },
    CastError { from_type: Seq<char>, to_type: Seq<char>, value: Seq<char> },
    DivisionByZero,
    MissingStartNode,
    MissingEndNode,
    NoOutgoingEdge { node_id: Seq<char> },
    NoMatchingConditionEdge { node_id: Seq<char>, condition_result: bool },
    NodeNotFound { node_id: Seq<char> },
    IoError { message: Seq<char> },
}

impl View for RuntimeError {
    type V = ErrorV;

    open spec fn view(&self) -> ErrorV {
        match self {
            RuntimeError::UndefinedVariable { name } => ErrorV::UndefinedVariable { name: name@ },
            RuntimeError::TypeError { expected, actual, operation } => ErrorV::TypeError {
                expected: expected@,
                actual: actual@,
                operation: operation@,
            },
            RuntimeError::CastError { from_type, to_type, value } => ErrorV::CastError {
                from_type: from_type@,
                to_type: to_type@,
                value: value@,
            },
            RuntimeError::DivisionByZero => ErrorV::DivisionByZero,
            RuntimeError::MissingStartNode => ErrorV::MissingStartNode,
            RuntimeError::MissingEndNode => ErrorV::MissingEndNode,
            RuntimeError::NoOutgoingEdge { node_id } => ErrorV::NoOutgoingEdge { node_id: node_id@ },
            RuntimeError::NoMatchingConditionEdge { node_id, condition_result } =>
                ErrorV::NoMatchingConditionEdge {
                node_id: node_id@,
                condition_result: *condition_result,
            },
            RuntimeError::NodeNotFound { node_id } => ErrorV::NodeNotFound { node_id: node_id@ },
            RuntimeError::IoError { message } => ErrorV::IoError { message: message@ },
        }
    }
}

/// The model of an evaluation result.
pub open spec fn result_view(r: Result<Value, RuntimeError>) -> Result<ValueV, ErrorV> {
    match r {
        Ok(v) => Ok(v@),
        Err(e) => Err(e@),
    }
}

impl Clone for Value {
    fn clone(&self) -> (r: Self)
        ensures
            r == *self,
    {
        match self {
            Value::Int(n) => Value::Int(*n),
            Value::Str(s) => Value::Str(s.clone()),
            Value::Bool(b) => Value::Bool(*b),
        }
    }
}

impl Value {
    /// The tag of the value's variant: `int`, `str` or `bool`.
    pub fn type_label(&self) -> (r: &'static str)
        ensures
            r@ == type_tag(self@),
    {
        match self {
            Value::Int(_) => "int",
            Value::Str(_) => "str",
            Value::Bool(_) => "bool",
        }
    }

    /// The integer held, if the value is an integer.
    pub fn as_int(&self) -> (r: Option<i64>)
        ensures
            r == (match *self {
                Value::Int(n) => Some(n),
                _ => None,
            }),
    {
        match self {
            Value::Int(n) => Some(*n),
            _ => None,
        }
    }

    /// The boolean held, if the value is a boolean.
    pub fn as_bool(&self) -> (r: Option<bool>)
        ensures
            r == (match *self {
                Value::Bool(b) => Some(b),
                _ => None,
            }),
    {
        match self {
            Value::Bool(b) => Some(*b),
            _ => None,
        }
    }

    /// The text held, if the value is a string.
    pub fn as_str(&self) -> (r: Option<&str>)
        ensures
            match *self {
                Value::Str(s) => r is Some && r->Some_0@ == s@,
                _ => r is None,
            },
    {
        match self {
            Value::Str(s) => Some(s.as_str()),
            _ => None,
        }
    }

    /// The display form of the value.
    pub fn to_string(&self) -> (r: String)
        ensures
            r@ == display_text(self@),
    {
        match self {
            Value::Int(n) => int_to_text(*n),
            Value::Str(s) => s.clone(),
            Value::Bool(b) => if *b {
                "true".to_owned()
            } else {
                "false".to_owned()
            },
        }
    }

    /// Whether two values are equal: same variant and same contents; values
    /// of different variants are never equal.
    pub fn equals(&self, other: &Value) -> (r: bool)
        ensures
            r == (self@ == other@),
    {
        match (self, other) {
            (Value::Int(x), Value::Int(y)) => *x == *y,
            (Value::Str(x), Value::Str(y)) => *x == *y,
            (Value::Bool(x), Value::Bool(y)) => *x == *y,
            _ => false,
        }
    }
}

/// A failure while building or running an interpreter.
#[derive(Debug, Clone)]
pub enum RuntimeError {
    UndefinedVariable { name: String },
    TypeError { expected: &'static str, actual: &'static str, operation: String },
    CastError { from_type: &'static str, to_type: &'static str, value: String },
    DivisionByZero,
    MissingStartNode,
    MissingEndNode,
    NoOutgoingEdge { node_id: String },
    NoMatchingConditionEdge { node_id: String, condition_result: bool },
    NodeNotFound { node_id: String },
    IoError { message: String },
}

impl RuntimeError {
    /// The human-readable message of the error.
    pub fn to_string(&self) -> (r: String)
        ensures
            (self is DivisionByZero) ==> r@ == "Division by zero"@,
            (self is MissingStartNode) ==> r@ == "Missing 'Start' node"@,
            (self is MissingEndNode) ==> r@ == "Missing 'End' node"@,
            (self is UndefinedVariable) ==> r@ == "Undefined variable: '"@
                + self->UndefinedVariable_name@ + "'"@,
            (self is NodeNotFound) ==> r@ == "Node '"@ + self->NodeNotFound_node_id@
                + "' not found"@,
            (self is NoOutgoingEdge) ==> r@ == "No outgoing edge from node '"@
                + self->NoOutgoingEdge_node_id@ + "'"@,
            (self is IoError) ==> r@ == "I/O error: "@ + self->IoError_message@,
            (self is TypeError) ==> r@ == "Type error in "@ + self->TypeError_operation@
                + ": expected "@ + self->TypeError_expected@ + ", got "@
                + self->TypeError_actual@,
            (self is CastError) ==> r@ == "Cannot cast "@ + self->CastError_from_type@ + " '"@
                + self->CastError_value@ + "' to "@ + self->CastError_to_type@,
            (self is NoMatchingConditionEdge) ==> r@ == "No '"@ + bool_branch(
                self->NoMatchingConditionEdge_condition_result,
            ) + "' edge from condition node '"@ + self->NoMatchingConditionEdge_node_id@
                + "'"@,
    {
        match self {
            RuntimeError::UndefinedVariable { name } => {
                let a = concat("Undefined variable: '", name.as_str());
                concat(a.as_str(), "'")
            },
            RuntimeError::TypeError { expected, actual, operation } => {
                let a = concat("Type error in ", operation.as_str());
                let b = concat(a.as_str(), ": expected ");
                let c = concat(b.as_str(), expected);
                let d = concat(c.as_str(), ", got ");
                concat(d.as_str(), actual)
            },
            RuntimeError::CastError { from_type, to_type, value } => {
                let a = concat("Cannot cast ", from_type);
                let b = concat(a.as_str(), " '");
                let c = concat(b.as_str(), value.as_str());
                let d = concat(c.as_str(), "' to ");
                concat(d.as_str(), to_type)
            },
            RuntimeError::DivisionByZero => "Division by zero".to_owned(),
            RuntimeError::MissingStartNode => "Missing 'Start' node".to_owned(),
            RuntimeError::MissingEndNode => "Missing 'End' node".to_owned(),
            RuntimeError::NoOutgoingEdge { node_id } => {
                let a = concat("No outgoing edge from node '", node_id.as_str());
                concat(a.as_str(), "'")
            },
            RuntimeError::NoMatchingConditionEdge { node_id, condition_result } => {
                let branch = if *condition_result {
                    "Yes"
                } else {
                    "No"
                };
                let a = concat("No '", branch);
                let b = concat(a.as_str(), "' edge from condition node '");
                let c = concat(b.as_str(), node_id.as_str());
                concat(c.as_str(), "'")
            },
            RuntimeError::NodeNotFound { node_id } => {
                let a = concat("Node '", node_id.as_str());
                concat(a.as_str(), "' not found")
            },
            RuntimeError::IoError { message } => concat("I/O error: ", message.as_str()),
        }
    }
}

/// The name of the branch taken for a condition result.
pub open spec fn bool_branch(b: bool) -> Seq<char> {
    if b {
        "Yes"@
    } else {
        "No"@
    }
}

} // verus!
