//! Abstract syntax of flowchart programs: expressions, statements, nodes,
//! edges and the flowchart itself.
use vstd::prelude::*;

verus! {

/// Prefix operators.
#[derive(Debug, Clone, Copy, PartialEq, Eq, Structural)]
pub enum UnaryOp {
    Not,
    Neg,
}

/// Infix operators.
#[derive(Debug, Clone, Copy, PartialEq, Eq, Structural)]
pub enum BinaryOp {
    Add,
    Sub,
    Mul,
    Div,
    Mod,
    Eq,
    Ne,
    Lt,
    Le,
    Gt,
    Ge,
    And,
    Or,
}

/// Target of an `as` cast.
#[derive(Debug, Clone, Copy, PartialEq, Eq, Structural)]
pub enum TypeName {
    Int,
    Str,
}

/// Layout direction of a flowchart; it has no effect on execution.
#[derive(Debug, Clone, Copy, PartialEq, Eq, Structural)]
pub enum Direction {
    Td,
    Tb,
    Lr,
    Rl,
    Bt,
}

/// An expression tree.
#[derive(Debug, PartialEq)]
pub enum Expr {
    IntLit { value: i64 },
    StrLit { value: String },
    BoolLit { value: bool },
    Variable { name: String },
    Input,
    Unary { op: UnaryOp, operand: Box<Expr> },
    Binary { op: BinaryOp, left: Box<Expr>, right: Box<Expr> },
    Cast { expr: Box<Expr>, target_type: TypeName },
}

/// A statement inside a process node.
#[derive(Debug, Clone, PartialEq)]
pub enum Statement {
    Assign { variable: String, value: Expr },
    Println { expr: Expr },
    Print { expr: Expr },
    Error { message: Expr },
}

/// A node of the control-flow graph.
#[derive(Debug, Clone, PartialEq)]
pub enum Node {
    Start { label: Option<String> },
    End { label: Option<String> },
    Process { id: String, statements: Vec<Statement> },
    Condition { id: String, condition: Expr },
}

/// The label carried by an edge.
#[derive(Debug, Clone, PartialEq)]
pub enum EdgeLabel {
    Yes,
    No,
    Custom(String),
}

/// A directed edge between two node identifiers.
#[derive(Debug, Clone, PartialEq)]
pub struct Edge {
    pub from: String,
    pub to: String,
    pub label: Option<EdgeLabel>,
}

/// A whole program: a direction, the nodes, and the edges in source order.
#[derive(Debug, Clone)]
pub struct Flowchart {
    pub direction: Direction,
    pub nodes: Vec<Node>,
    pub edges: Vec<Edge>,
}

/// The mathematical model of an expression: texts as character sequences.
pub enum ExprV {
    IntLit(i64),
    StrLit(Seq<char>),
    BoolLit(bool),
    Variable(Seq<char>),
    Input,
    Unary(UnaryOp, Box<ExprV>),
    Binary(BinaryOp, Box<ExprV>, Box<ExprV>),
    Cast(Box<ExprV>, TypeName),
}

/// The model of an expression.
pub open spec fn expr_view(e: Expr) -> ExprV
    decreases e,
{
    match e {
        Expr::IntLit { value } => ExprV::IntLit(value),
        Expr::StrLit { value } => ExprV::StrLit(value@),
        Expr::BoolLit { value } => ExprV::BoolLit(value),
        Expr::Variable { name } => ExprV::Variable(name@),
        Expr::Input => ExprV::Input,
        Expr::Unary { op, operand } => ExprV::Unary(op, Box::new(expr_view(*operand))),
        Expr::Binary { op, left, right } => ExprV::Binary(
            op,
            Box::new(expr_view(*left)),
            Box::new(expr_view(*right)),
        ),
        Expr::Cast { expr, target_type } => ExprV::Cast(Box::new(expr_view(*expr)), target_type),
    }
}

/// The mathematical model of a statement.
pub enum StatementV {
    Assign(Seq<char>, ExprV),
    Println(ExprV),
    Print(ExprV),
    Error(ExprV),
}

/// The model of a statement.
pub open spec fn statement_view(s: Statement) -> StatementV {
    match s {
        Statement::Assign { variable, value } => StatementV::Assign(variable@, expr_view(value)),
        Statement::Println { expr } => StatementV::Println(expr_view(expr)),
        Statement::Print { expr } => StatementV::Print(expr_view(expr)),
        Statement::Error { message } => StatementV::Error(expr_view(message)),
    }
}

/// The models of a statement list.
pub open spec fn statements_view(s: Seq<Statement>) -> Seq<StatementV> {
    s.map_values(|st: Statement| statement_view(st))
}

/// The mathematical model of a node.
pub enum NodeV {
    Start(Option<Seq<char>>),
    End(Option<Seq<char>>),
    Process(Seq<char>, Seq<StatementV>),
    Condition(Seq<char>, ExprV),
}

/// The model of an optional text.
pub open spec fn text_opt_view(t: Option<String>) -> Option<Seq<char>> {
    match t {
        Some(x) => Some(x@),
        None => None,
    }
}

/// The model of a node.
pub open spec fn node_view(n: Node) -> NodeV {
    match n {
        Node::Start { label } => NodeV::Start(text_opt_view(label)),
        Node::End { label } => NodeV::End(text_opt_view(label)),
        Node::Process { id, statements } => NodeV::Process(id@, statements_view(statements@)),
        Node::Condition { id, condition } => NodeV::Condition(id@, expr_view(condition)),
    }
}

/// The mathematical model of an edge label.
pub enum LabelV {
    Yes,
    No,
    Custom(Seq<char>),
}

/// The model of an optional edge label.
pub open spec fn label_view(l: Option<EdgeLabel>) -> Option<LabelV> {
    match l {
        Some(EdgeLabel::Yes) => Some(LabelV::Yes),
        Some(EdgeLabel::No) => Some(LabelV::No),
        Some(EdgeLabel::Custom(t)) => Some(LabelV::Custom(t@)),
        None => None,
    }
}

/// The mathematical model of an edge.
pub struct EdgeV {
    pub from: Seq<char>,
    pub to: Seq<char>,
    pub label: Option<LabelV>,
}

/// The model of an edge.
pub open spec fn edge_view(e: Edge) -> EdgeV {
    EdgeV { from: e.from@, to: e.to@, label: label_view(e.label) }
}

/// The identifier of a node: fixed for `Start` and `End`, chosen by the
/// author for the other variants.
pub open spec fn node_id(n: Node) -> Seq<char> {
    match n {
        Node::Start { .. } => "Start"@,
        Node::End { .. } => "End"@,
        Node::Process { id, .. } => id@,
        Node::Condition { id, .. } => id@,
    }
}

/// Structural equality of two optional texts, by their characters.
pub open spec fn same_text_opt(a: Option<String>, b: Option<String>) -> bool {
    match (a, b) {
        (None, None) => true,
        (Some(x), Some(y)) => x@ == y@,
        _ => false,
    }
}

/// Structural equality of expressions, comparing texts by their characters.
pub open spec fn same_expr(a: Expr, b: Expr) -> bool
    decreases a,
{
    match (a, b) {
        (Expr::IntLit { value: x }, Expr::IntLit { value: y }) => x == y,
        (Expr::StrLit { value: x }, Expr::StrLit { value: y }) => x@ == y@,
        (Expr::BoolLit { value: x }, Expr::BoolLit { value: y }) => x == y,
        (Expr::Variable { name: x }, Expr::Variable { name: y }) => x@ == y@,
        (Expr::Input, Expr::Input) => true,
        (Expr::Unary { op: o1, operand: x }, Expr::Unary { op: o2, operand: y }) => o1 == o2
            && same_expr(*x, *y),
        (
            Expr::Binary { op: o1, left: l1, right: r1 },
            Expr::Binary { op: o2, left: l2, right: r2 },
        ) => o1 == o2 && same_expr(*l1, *l2) && same_expr(*r1, *r2),
        (
            Expr::Cast { expr: x, target_type: t1 },
            Expr::Cast { expr: y, target_type: t2 },
        ) => t1 == t2 && same_expr(*x, *y),
        _ => false,
    }
}

/// Structural equality of statements.
pub open spec fn same_statement(a: Statement, b: Statement) -> bool {
    match (a, b) {
        (Statement::Assign { variable: v1, value: e1 }, Statement::Assign { variable: v2, value: e2 }) =>
            v1@ == v2@ && same_expr(e1, e2),
        (Statement::Println { expr: e1 }, Statement::Println { expr: e2 }) => same_expr(e1, e2),
        (Statement::Print { expr: e1 }, Statement::Print { expr: e2 }) => same_expr(e1, e2),
        (Statement::Error { message: e1 }, Statement::Error { message: e2 }) => same_expr(e1, e2),
        _ => false,
    }
}

/// Structural equality of statement lists.
pub open spec fn same_statements(a: Seq<Statement>, b: Seq<Statement>) -> bool {
    a.len() == b.len() && forall|i: int| 0 <= i < a.len() ==> same_statement(#[trigger] a[i], b[i])
}

/// Structural equality of nodes.
pub open spec fn same_node(a: Node, b: Node) -> bool {
    match (a, b) {
        (Node::Start { label: x }, Node::Start { label: y }) => same_text_opt(x, y),
        (Node::End { label: x }, Node::End { label: y }) => same_text_opt(x, y),
        (Node::Process { id: i1, statements: s1 }, Node::Process { id: i2, statements: s2 }) =>
            i1@ == i2@ && same_statements(s1@, s2@),
        (Node::Condition { id: i1, condition: c1 }, Node::Condition { id: i2, condition: c2 }) =>
            i1@ == i2@ && same_expr(c1, c2),
        _ => false,
    }
}

impl Clone for Expr {
    fn clone(&self) -> (r: Self)
        ensures
            r == *self,
        decreases self,
    {
        match self {
            Expr::IntLit { value } => Expr::IntLit { value: *value },
            Expr::StrLit { value } => Expr::StrLit { value: value.clone() },
            Expr::BoolLit { value } => Expr::BoolLit { value: *value },
            Expr::Variable { name } => Expr::Variable { name: name.clone() },
            Expr::Input => Expr::Input,
            Expr::Unary { op, operand } => Expr::Unary {
                op: *op,
                operand: Box::new((**operand).clone()),
            },
            Expr::Binary { op, left, right } => Expr::Binary {
                op: *op,
                left: Box::new((**left).clone()),
                right: Box::new((**right).clone()),
            },
            Expr::Cast { expr, target_type } => Expr::Cast {
                expr: Box::new((**expr).clone()),
                target_type: *target_type,
            },
        }
    }
}

impl EdgeLabel {
    /// Whether the label is one of the two branch labels.
    pub fn is_yes_or_no(&self) -> (r: bool)
        ensures
            r == (self is Yes || self is No),
    {
        match self {
            EdgeLabel::Yes => true,
            EdgeLabel::No => true,
            EdgeLabel::Custom(_) => false,
        }
    }
}

impl Node {
    /// The node's identifier.
    pub fn id(&self) -> (r: &str)
        ensures
            r@ == node_id(*self),
    {
        match self {
            Node::Start { .. } => "Start",
            Node::End { .. } => "End",
            Node::Process { id, .. } => id.as_str(),
            Node::Condition { id, .. } => id.as_str(),
        }
    }
}

} // verus!
