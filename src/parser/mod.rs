//! The front end: from flowchart text to a validated `Flowchart`.
pub mod error;
pub mod expr;
pub mod grammar;
pub mod lexical;
pub mod validate;

pub use error::{AnalysisError, SyntaxError, ValidationError};

use vstd::prelude::*;
use crate::ast::{Direction, Edge, EdgeV, Flowchart, Node, NodeV};
use crate::text::chars_of;
use grammar::{
    finish_line, finish_line_at, line_v, line_view, looking_at, next_token, node_opt_view,
    parse_line, skip_blanks, skip_gap, skip_gap_at, word_end, word_end_at,
};
use lexical::{is_identifier, is_letter, is_letter_char, is_word_char, is_word_character};
use validate::{
    conflict_message, edges_view, graph_valid, graph_valid_v, ids_unique, insert_node, insert_v,
    lemma_graph_valid_view, nodes_view, validate_flowchart, validation_message,
};

verus! {

/// The layout direction a word names.
pub open spec fn direction_of(w: Seq<char>) -> Option<Direction> {
    if w == "TD"@ {
        Some(Direction::Td)
    } else if w == "TB"@ {
        Some(Direction::Tb)
    } else if w == "LR"@ {
        Some(Direction::Lr)
    } else if w == "RL"@ {
        Some(Direction::Rl)
    } else if w == "BT"@ {
        Some(Direction::Bt)
    } else {
        None
    }
}

/// The layout direction named by the word from `a` to `b`.
fn parse_direction(cs: &Vec<char>, a: usize, b: usize) -> (r: Option<Direction>)
    requires
        a <= b <= cs.len(),
    ensures
        r == direction_of(cs@.subrange(a as int, b as int)),
{
    let w = grammar::slice_text(cs, a, b);
    let w = w.as_str();
    if crate::text::same_text(w, "TD") {
        Some(Direction::Td)
    } else if crate::text::same_text(w, "TB") {
        Some(Direction::Tb)
    } else if crate::text::same_text(w, "LR") {
        Some(Direction::Lr)
    } else if crate::text::same_text(w, "RL") {
        Some(Direction::Rl)
    } else if crate::text::same_text(w, "BT") {
        Some(Direction::Bt)
    } else {
        None
    }
}

/// The header: `flowchart` after blank and comment lines, an optional
/// direction (`TD` when absent), and the end of its line; with the
/// position after it.
pub open spec fn header_v(cs: Seq<char>) -> Option<(Direction, int)> {
    let p = skip_gap_at(cs, 0);
    let k = "flowchart"@.len();
    if !(p + k <= cs.len() && cs.subrange(p, p + k) == "flowchart"@) {
        None
    } else {
        let p1 = p + k;
        if p1 < cs.len() && is_word_char(cs[p1]) {
            None
        } else {
            let q = next_token(cs, p1);
            let dir: Option<(Direction, int)> = if q > p1 && q < cs.len() && is_letter(cs[q]) {
                let e = word_end_at(cs, q);
                match direction_of(cs.subrange(q, e)) {
                    Some(d) => Some((d, e)),
                    None => None,
                }
            } else {
                Some((Direction::Td, p1))
            };
            match dir {
                None => None,
                Some((d, p2)) => match finish_line_at(cs, p2) {
                    Some(p3) => Some((d, p3)),
                    None => None,
                },
            }
        }
    }
}

/// `insert_v` for an optional definition.
pub open spec fn add_def(nodes: Seq<NodeV>, n: Option<NodeV>) -> Option<Seq<NodeV>> {
    match n {
        Some(x) => insert_v(nodes, x),
        None => Some(nodes),
    }
}

/// What reading the body of a flowchart gives.
pub enum BodyV {
    /// A line the grammar rejects.
    SyntaxError,
    /// Two conflicting definitions of the node with this identifier.
    Conflict(Seq<char>),
    /// The merged nodes and the edges in order.
    Graph(Seq<NodeV>, Seq<EdgeV>),
}

/// The body from `p`, given the nodes and edges of the lines before: each
/// line, read up to the end of its line, merges its node definitions, the
/// one on the left first, and adds its edge.
pub open spec fn body_from(cs: Seq<char>, p: int, nodes: Seq<NodeV>, edges: Seq<EdgeV>) -> BodyV
    decreases cs.len() - p,
{
    let start = skip_gap_at(cs, p);
    if start >= cs.len() {
        BodyV::Graph(nodes, edges)
    } else {
        match line_v(cs, start) {
            None => BodyV::SyntaxError,
            Some((l, q)) => match finish_line_at(cs, q) {
                None => BodyV::SyntaxError,
                Some(end) => match add_def(nodes, l.from_node) {
                    None => BodyV::Conflict(l.from_id),
                    Some(n1) => match add_def(n1, l.to_node) {
                        None => BodyV::Conflict(l.to_id),
                        Some(n2) => if p < end <= cs.len() {
                            body_from(
                                cs,
                                end,
                                n2,
                                edges.push(EdgeV { from: l.from_id, to: l.to_id, label: l.label }),
                            )
                        } else {
                            BodyV::SyntaxError
                        },
                    },
                },
            },
        }
    }
}

/// Whether `r` is the outcome of parsing the text `cs`: a syntax error
/// when the header or a line is rejected, a validation error on a conflict
/// or when the graph breaks a structural rule, and otherwise the flowchart
/// of the header's direction, the merged nodes and the edges.
pub open spec fn parse_outcome(cs: Seq<char>, r: Result<Flowchart, AnalysisError>) -> bool {
    match header_v(cs) {
        None => r matches Err(AnalysisError::Syntax(_)),
        Some((d, p)) => match body_from(cs, p, Seq::empty(), Seq::empty()) {
            BodyV::SyntaxError => r matches Err(AnalysisError::Syntax(_)),
            BodyV::Conflict(id) => r matches Err(AnalysisError::Validation(e)) && e.text()
                == conflict_message(id),
            BodyV::Graph(ns, es) => if graph_valid_v(ns, es) {
                r matches Ok(fc) && fc.direction == d && nodes_view(fc.nodes@) == ns && edges_view(
                    fc.edges@,
                ) == es
            } else {
                r matches Err(AnalysisError::Validation(e)) && validation_message(ns, es) == Some(
                    e.text(),
                )
            },
        },
    }
}

fn add_node(nodes: &mut Vec<Node>, node: Option<Node>) -> (r: Result<(), AnalysisError>)
    requires
        ids_unique(old(nodes)@),
    ensures
        ids_unique(final(nodes)@),
        match add_def(nodes_view(old(nodes)@), node_opt_view(node)) {
            Some(ns) => r is Ok && nodes_view(final(nodes)@) == ns,
            None => node matches Some(n) && r matches Err(AnalysisError::Validation(e)) && e.text()
                == conflict_message(crate::ast::node_id(n)),
        },
{
    match node {
        Some(n) => match insert_node(nodes, n) {
            Ok(()) => Ok(()),
            Err(e) => Err(AnalysisError::Validation(e)),
        },
        None => Ok(()),
    }
}

/// Reads the header; returns its direction and the position after it.
fn parse_header(cs: &Vec<char>) -> (r: Result<(Direction, usize), SyntaxError>)
    ensures
        match header_v(cs@) {
            Some((d, p)) => r matches Ok((x, q)) && x == d && q == p,
            None => r is Err,
        },
        r matches Ok((_, q)) ==> q <= cs.len(),
{
    let mut p = skip_gap(cs, 0);
    proof {
        reveal_strlit("flowchart");
    }
    if !looking_at(cs, p, "flowchart") {
        return Err(SyntaxError::new("expected 'flowchart' header"));
    }
    p = p + 9;
    if p < cs.len() && is_word_character(cs[p]) {
        return Err(SyntaxError::new("expected 'flowchart' header"));
    }
    let mut direction = Direction::Td;
    let q = skip_blanks(cs, p);
    if q > p && q < cs.len() && is_letter_char(cs[q]) {
        let e = word_end(cs, q);
        match parse_direction(cs, q, e) {
            Some(d) => {
                direction = d;
                p = e;
            },
            None => {
                return Err(SyntaxError::new("expected a direction: TD, TB, LR, RL or BT"));
            },
        }
    }
    match finish_line(cs, p) {
        Ok(x) => Ok((direction, x)),
        Err(e) => Err(e),
    }
}

/// Reads the edge lines from `pos` to the end, merging node definitions as
/// it goes.
fn parse_body(cs: &Vec<char>, pos: usize) -> (r: Result<(Vec<Node>, Vec<Edge>), AnalysisError>)
    requires
        pos <= cs.len(),
    ensures
        match body_from(cs@, pos as int, Seq::empty(), Seq::empty()) {
            BodyV::SyntaxError => r matches Err(AnalysisError::Syntax(_)),
            BodyV::Conflict(id) => r matches Err(AnalysisError::Validation(e)) && e.text()
                == conflict_message(id),
            BodyV::Graph(ns, es) => r matches Ok((nodes, edges)) && nodes_view(nodes@) == ns
                && edges_view(edges@) == es,
        },
        r matches Ok((nodes, edges)) ==> ids_unique(nodes@) && forall|i: int|
            0 <= i < edges@.len() ==> is_identifier((#[trigger] edges@[i]).from@) && is_identifier(
                edges@[i].to@,
            ),
{
    let mut p = pos;
    let mut nodes: Vec<Node> = Vec::new();
    let mut edges: Vec<Edge> = Vec::new();
    assert(nodes_view(nodes@) =~= Seq::<NodeV>::empty());
    assert(edges_view(edges@) =~= Seq::<EdgeV>::empty());
    loop
        invariant
            pos <= p <= cs.len(),
            body_from(cs@, pos as int, Seq::empty(), Seq::empty()) == body_from(
                cs@,
                p as int,
                nodes_view(nodes@),
                edges_view(edges@),
            ),
            ids_unique(nodes@),
            forall|i: int|
                0 <= i < edges@.len() ==> is_identifier((#[trigger] edges@[i]).from@)
                    && is_identifier(edges@[i].to@),
        decreases cs.len() - p,
    {
        let start = skip_gap(cs, p);
        if start >= cs.len() {
            return Ok((nodes, edges));
        }
        let (line, q) = match parse_line(cs, start) {
            Ok(x) => x,
            Err(e) => {
                return Err(AnalysisError::Syntax(e));
            },
        };
        let end = match finish_line(cs, q) {
            Ok(x) => x,
            Err(e) => {
                return Err(AnalysisError::Syntax(e));
            },
        };
        if let Err(e) = add_node(&mut nodes, line.from_node) {
            return Err(e);
        }
        if let Err(e) = add_node(&mut nodes, line.to_node) {
            return Err(e);
        }
        let ghost before = edges_view(edges@);
        let ghost lv = line_view(line);
        edges.push(Edge { from: line.from_id, to: line.to_id, label: line.label });
        assert(edges_view(edges@) =~= before.push(EdgeV { from: lv.from_id, to: lv.to_id, label: lv.label }));
        p = end;
    }
}

/// Parses flowchart text into a validated flowchart.
///
/// The text is a `flowchart` header with an optional direction (`TD` when
/// absent), then one edge per line; blank lines and `%%` comments are
/// skipped. Node definitions are merged by the rule of `insert_node`. Text
/// the grammar rejects is a syntax error; a conflicting definition, or a
/// graph that breaks a structural rule, is a validation error; the result
/// is exactly the one `parse_outcome` describes. A flowchart returned meets
/// `graph_valid`, and its node identifiers are unique.
pub fn parse(input: &str) -> (r: Result<Flowchart, AnalysisError>)
    ensures
        parse_outcome(input@, r),
        r matches Ok(fc) ==> graph_valid(fc.nodes@, fc.edges@) && ids_unique(fc.nodes@),
        r matches Ok(fc) ==> forall|i: int|
            0 <= i < fc.edges@.len() ==> is_identifier((#[trigger] fc.edges@[i]).from@)
                && is_identifier(fc.edges@[i].to@),
{
    let cs = chars_of(input);
    let (direction, p) = match parse_header(&cs) {
        Ok(x) => x,
        Err(e) => {
            return Err(AnalysisError::Syntax(e));
        },
    };
    let (nodes, edges) = match parse_body(&cs, p) {
        Ok(x) => x,
        Err(e) => {
            return Err(e);
        },
    };
    proof {
        lemma_graph_valid_view(nodes@, edges@);
    }
    match validate_flowchart(&nodes, &edges) {
        Ok(()) => Ok(Flowchart { direction, nodes, edges }),
        Err(e) => Err(AnalysisError::Validation(e)),
    }
}

} // verus!
