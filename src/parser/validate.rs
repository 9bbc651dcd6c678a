//! The merge rule for repeated node references, and the structural rules
//! that a flowchart must meet.
use vstd::prelude::*;
use crate::ast::{
    edge_view, expr_view, node_id, node_view, EdgeV, LabelV, same_expr, same_node, same_statement, same_statements,
    same_text_opt, statement_view, statements_view, Edge, EdgeLabel, Expr, Node,
    NodeV, Statement,
};
use crate::parser::error::ValidationError;
use crate::text::{concat, same_text};

verus! {

/// Whether some node has identifier `id`.
pub open spec fn has_node(nodes: Seq<Node>, id: Seq<char>) -> bool {
    exists|k: int| 0 <= k < nodes.len() && node_id(#[trigger] nodes[k]) == id
}

/// Whether no two nodes share an identifier.
pub open spec fn ids_unique(nodes: Seq<Node>) -> bool {
    forall|i: int, j: int|
        0 <= i < nodes.len() && 0 <= j < nodes.len() && node_id(#[trigger] nodes[i]) == node_id(
            #[trigger] nodes[j],
        ) ==> i == j
}

/// What a new definition does to an existing node of the same identifier:
/// `Some(false)` keeps the existing node, `Some(true)` replaces it, `None`
/// is a conflict. A bare `Start`/`End` never conflicts, a labeled one
/// upgrades a bare one, and an identical definition is accepted.
pub open spec fn merge_outcome(existing: Node, new: Node) -> Option<bool> {
    match (existing, new) {
        (Node::Start { .. }, Node::Start { label: None }) => Some(false),
        (Node::End { .. }, Node::End { label: None }) => Some(false),
        (Node::Start { label: None }, Node::Start { label: Some(_) }) => Some(true),
        (Node::End { label: None }, Node::End { label: Some(_) }) => Some(true),
        _ => if same_node(existing, new) {
            Some(false)
        } else {
            None
        },
    }
}

/// Whether every edge leaving condition `id` is labeled `Yes` or `No`, with
/// exactly one of each.
pub open spec fn branches_ok(edges: Seq<Edge>, id: Seq<char>) -> bool {
    &&& forall|i: int|
        0 <= i < edges.len() && (#[trigger] edges[i]).from@ == id ==> (edges[i].label
            == Some(EdgeLabel::Yes) || edges[i].label == Some(EdgeLabel::No))
    &&& exists|i: int|
        0 <= i < edges.len() && (#[trigger] edges[i]).from@ == id && edges[i].label
            == Some(EdgeLabel::Yes)
    &&& exists|i: int|
        0 <= i < edges.len() && (#[trigger] edges[i]).from@ == id && edges[i].label
            == Some(EdgeLabel::No)
    &&& forall|i: int, j: int|
        0 <= i < edges.len() && 0 <= j < edges.len() && (#[trigger] edges[i]).from@ == id
            && (#[trigger] edges[j]).from@ == id && edges[i].label == edges[j].label ==> i == j
}

/// Whether some condition node has identifier `id`.
pub open spec fn is_condition_id(nodes: Seq<Node>, id: Seq<char>) -> bool {
    exists|k: int| 0 <= k < nodes.len() && (#[trigger] nodes[k]) is Condition && node_id(nodes[k]) == id
}

/// The structural rules of a flowchart:
/// condition nodes have one `Yes` and one `No` edge and no other;
/// a `Start` node and an `End` node exist;
/// every edge joins two existing nodes;
/// no edge leaves `End`;
/// only condition nodes have more than one outgoing edge.
pub open spec fn graph_valid(nodes: Seq<Node>, edges: Seq<Edge>) -> bool {
    &&& forall|k: int|
        0 <= k < nodes.len() && (#[trigger] nodes[k]) is Condition ==> branches_ok(
            edges,
            node_id(nodes[k]),
        )
    &&& exists|k: int| 0 <= k < nodes.len() && (#[trigger] nodes[k]) is Start
    &&& exists|k: int| 0 <= k < nodes.len() && (#[trigger] nodes[k]) is End
    &&& forall|i: int|
        0 <= i < edges.len() ==> has_node(nodes, (#[trigger] edges[i]).from@) && has_node(
            nodes,
            edges[i].to@,
        )
    &&& forall|i: int| 0 <= i < edges.len() ==> (#[trigger] edges[i]).from@ != "End"@
    &&& forall|i: int, j: int|
        0 <= i < edges.len() && 0 <= j < edges.len() && i != j && (#[trigger] edges[i]).from@ == (
        #[trigger] edges[j]).from@ ==> is_condition_id(nodes, edges[i].from@)
}

/// The identifier of a node model.
pub open spec fn node_id_v(n: NodeV) -> Seq<char> {
    match n {
        NodeV::Start(_) => "Start"@,
        NodeV::End(_) => "End"@,
        NodeV::Process(id, _) => id,
        NodeV::Condition(id, _) => id,
    }
}

/// `merge_outcome` on node models; identical definitions are equal models.
pub open spec fn merge_outcome_v(existing: NodeV, new: NodeV) -> Option<bool> {
    match (existing, new) {
        (NodeV::Start(_), NodeV::Start(None)) => Some(false),
        (NodeV::End(_), NodeV::End(None)) => Some(false),
        (NodeV::Start(None), NodeV::Start(Some(_))) => Some(true),
        (NodeV::End(None), NodeV::End(Some(_))) => Some(true),
        _ => if existing == new {
            Some(false)
        } else {
            None
        },
    }
}

/// The models of a node list.
pub open spec fn nodes_view(ns: Seq<Node>) -> Seq<NodeV> {
    ns.map_values(|n: Node| node_view(n))
}

/// The node list after adding a definition under the merge rule, or `None`
/// on a conflict: a new identifier is appended, a known one is kept or
/// replaced as `merge_outcome_v` says.
pub open spec fn insert_v(nodes: Seq<NodeV>, n: NodeV) -> Option<Seq<NodeV>> {
    if exists|k: int| 0 <= k < nodes.len() && node_id_v(#[trigger] nodes[k]) == node_id_v(n) {
        let k = choose|k: int| 0 <= k < nodes.len() && node_id_v(#[trigger] nodes[k]) == node_id_v(n);
        match merge_outcome_v(nodes[k], n) {
            Some(true) => Some(nodes.update(k, n)),
            Some(false) => Some(nodes),
            None => None,
        }
    } else {
        Some(nodes.push(n))
    }
}

proof fn lemma_same_expr_view(a: Expr, b: Expr)
    ensures
        same_expr(a, b) == (expr_view(a) == expr_view(b)),
    decreases a,
{
    match (a, b) {
        (Expr::Unary { operand: x, .. }, Expr::Unary { operand: y, .. }) => {
            lemma_same_expr_view(*x, *y);
        },
        (Expr::Binary { left: l1, right: r1, .. }, Expr::Binary { left: l2, right: r2, .. }) => {
            lemma_same_expr_view(*l1, *l2);
            lemma_same_expr_view(*r1, *r2);
        },
        (Expr::Cast { expr: x, .. }, Expr::Cast { expr: y, .. }) => {
            lemma_same_expr_view(*x, *y);
        },
        _ => {},
    }
}

proof fn lemma_same_statement_view(a: Statement, b: Statement)
    ensures
        same_statement(a, b) == (statement_view(a) == statement_view(b)),
{
    match (a, b) {
        (Statement::Assign { value: e1, .. }, Statement::Assign { value: e2, .. }) => {
            lemma_same_expr_view(e1, e2);
        },
        (Statement::Println { expr: e1 }, Statement::Println { expr: e2 }) => {
            lemma_same_expr_view(e1, e2);
        },
        (Statement::Print { expr: e1 }, Statement::Print { expr: e2 }) => {
            lemma_same_expr_view(e1, e2);
        },
        (Statement::Error { message: e1 }, Statement::Error { message: e2 }) => {
            lemma_same_expr_view(e1, e2);
        },
        _ => {},
    }
}

proof fn lemma_same_node_view(a: Node, b: Node)
    ensures
        same_node(a, b) == (node_view(a) == node_view(b)),
{
    match (a, b) {
        (Node::Process { statements: s1, .. }, Node::Process { statements: s2, .. }) => {
            let v1 = statements_view(s1@);
            let v2 = statements_view(s2@);
            assert forall|i: int| 0 <= i < s1@.len() && i < s2@.len() implies same_statement(
                #[trigger] s1@[i],
                s2@[i],
            ) == (v1[i] == v2[i]) by {
                lemma_same_statement_view(s1@[i], s2@[i]);
            }
            if same_statements(s1@, s2@) {
                assert(v1 =~= v2);
            }
            if v1 == v2 {
                assert(s1@.len() == v1.len());
                assert forall|i: int| 0 <= i < s1@.len() implies same_statement(
                    #[trigger] s1@[i],
                    s2@[i],
                ) by {
                    assert(v1[i] == v2[i]);
                }
            }
        },
        (Node::Condition { condition: c1, .. }, Node::Condition { condition: c2, .. }) => {
            lemma_same_expr_view(c1, c2);
        },
        _ => {},
    }
}

/// The models of an edge list.
pub open spec fn edges_view(es: Seq<Edge>) -> Seq<EdgeV> {
    es.map_values(|e: Edge| edge_view(e))
}

/// `has_node` on models.
pub open spec fn has_node_v(ns: Seq<NodeV>, id: Seq<char>) -> bool {
    exists|k: int| 0 <= k < ns.len() && node_id_v(#[trigger] ns[k]) == id
}

/// `branches_ok` on models.
pub open spec fn branches_ok_v(es: Seq<EdgeV>, id: Seq<char>) -> bool {
    &&& forall|i: int|
        0 <= i < es.len() && (#[trigger] es[i]).from == id ==> (es[i].label == Some(LabelV::Yes)
            || es[i].label == Some(LabelV::No))
    &&& exists|i: int|
        0 <= i < es.len() && (#[trigger] es[i]).from == id && es[i].label == Some(LabelV::Yes)
    &&& exists|i: int|
        0 <= i < es.len() && (#[trigger] es[i]).from == id && es[i].label == Some(LabelV::No)
    &&& forall|i: int, j: int|
        0 <= i < es.len() && 0 <= j < es.len() && (#[trigger] es[i]).from == id && (
        #[trigger] es[j]).from == id && es[i].label == es[j].label ==> i == j
}

/// `is_condition_id` on models.
pub open spec fn is_condition_id_v(ns: Seq<NodeV>, id: Seq<char>) -> bool {
    exists|k: int| 0 <= k < ns.len() && (#[trigger] ns[k]) is Condition && node_id_v(ns[k]) == id
}

/// `graph_valid` on models.
pub open spec fn graph_valid_v(ns: Seq<NodeV>, es: Seq<EdgeV>) -> bool {
    &&& forall|k: int|
        0 <= k < ns.len() && (#[trigger] ns[k]) is Condition ==> branches_ok_v(es, node_id_v(ns[k]))
    &&& exists|k: int| 0 <= k < ns.len() && (#[trigger] ns[k]) is Start
    &&& exists|k: int| 0 <= k < ns.len() && (#[trigger] ns[k]) is End
    &&& forall|i: int|
        0 <= i < es.len() ==> has_node_v(ns, (#[trigger] es[i]).from) && has_node_v(ns, es[i].to)
    &&& forall|i: int| 0 <= i < es.len() ==> (#[trigger] es[i]).from != "End"@
    &&& forall|i: int, j: int|
        0 <= i < es.len() && 0 <= j < es.len() && i != j && (#[trigger] es[i]).from == (
        #[trigger] es[j]).from ==> is_condition_id_v(ns, es[i].from)
}

proof fn lemma_branches_view(edges: Seq<Edge>, id: Seq<char>)
    ensures
        branches_ok(edges, id) == branches_ok_v(edges_view(edges), id),
{
    let es = edges_view(edges);
    assert forall|i: int| 0 <= i < edges.len() implies (#[trigger] es[i]).from == edges[i].from@
        && (es[i].label == Some(LabelV::Yes) <==> edges[i].label == Some(EdgeLabel::Yes)) && (
    es[i].label == Some(LabelV::No) <==> edges[i].label == Some(EdgeLabel::No)) by {}
    if branches_ok(edges, id) {
        assert forall|i: int| 0 <= i < es.len() && (#[trigger] es[i]).from == id implies (es[i].label
            == Some(LabelV::Yes) || es[i].label == Some(LabelV::No)) by {
            assert(edges[i].from@ == id);
        }
        assert forall|i: int, j: int|
            0 <= i < es.len() && 0 <= j < es.len() && (#[trigger] es[i]).from == id && (
            #[trigger] es[j]).from == id && es[i].label == es[j].label implies i == j by {
            assert(edges[i].from@ == id && edges[j].from@ == id);
            assert(edges[i].label == edges[j].label);
        }
        let y = choose|i: int|
            0 <= i < edges.len() && (#[trigger] edges[i]).from@ == id && edges[i].label == Some(
                EdgeLabel::Yes,
            );
        assert(es[y].from == id && es[y].label == Some(LabelV::Yes));
        let n = choose|i: int|
            0 <= i < edges.len() && (#[trigger] edges[i]).from@ == id && edges[i].label == Some(
                EdgeLabel::No,
            );
        assert(es[n].from == id && es[n].label == Some(LabelV::No));
    }
    if branches_ok_v(es, id) {
        assert forall|i: int| 0 <= i < edges.len() && (#[trigger] edges[i]).from@ == id implies (
        edges[i].label == Some(EdgeLabel::Yes) || edges[i].label == Some(EdgeLabel::No)) by {
            assert(es[i].from == id);
        }
        assert forall|i: int, j: int|
            0 <= i < edges.len() && 0 <= j < edges.len() && (#[trigger] edges[i]).from@ == id && (
            #[trigger] edges[j]).from@ == id && edges[i].label == edges[j].label implies i == j by {
            assert(es[i].from == id && es[j].from == id);
        }
        let y = choose|i: int|
            0 <= i < es.len() && (#[trigger] es[i]).from == id && es[i].label == Some(LabelV::Yes);
        assert(edges[y].from@ == id && edges[y].label == Some(EdgeLabel::Yes));
        let n = choose|i: int|
            0 <= i < es.len() && (#[trigger] es[i]).from == id && es[i].label == Some(LabelV::No);
        assert(edges[n].from@ == id && edges[n].label == Some(EdgeLabel::No));
    }
}

/// The structural rules hold of a graph exactly when they hold of its
/// model.
pub proof fn lemma_graph_valid_view(nodes: Seq<Node>, edges: Seq<Edge>)
    ensures
        graph_valid(nodes, edges) == graph_valid_v(nodes_view(nodes), edges_view(edges)),
{
    let ns = nodes_view(nodes);
    let es = edges_view(edges);
    assert forall|k: int| 0 <= k < nodes.len() implies node_id_v(#[trigger] ns[k]) == node_id(
        nodes[k],
    ) && (ns[k] is Condition <==> nodes[k] is Condition) && (ns[k] is Start <==> nodes[k] is Start)
        && (ns[k] is End <==> nodes[k] is End) by {}
    assert forall|i: int| 0 <= i < edges.len() implies (#[trigger] es[i]).from == edges[i].from@
        && es[i].to == edges[i].to@ by {}
    assert forall|id: Seq<char>| has_node(nodes, id) == has_node_v(ns, id) by {
        if has_node(nodes, id) {
            let k = choose|k: int| 0 <= k < nodes.len() && node_id(#[trigger] nodes[k]) == id;
            assert(node_id_v(ns[k]) == id);
        }
        if has_node_v(ns, id) {
            let k = choose|k: int| 0 <= k < ns.len() && node_id_v(#[trigger] ns[k]) == id;
            assert(node_id(nodes[k]) == id);
        }
    }
    assert forall|id: Seq<char>| is_condition_id(nodes, id) == is_condition_id_v(ns, id) by {
        if is_condition_id(nodes, id) {
            let k = choose|k: int| 0 <= k < nodes.len() && (#[trigger] nodes[k]) is Condition && node_id(nodes[k]) == id;
            assert(ns[k] is Condition && node_id_v(ns[k]) == id);
        }
        if is_condition_id_v(ns, id) {
            let k = choose|k: int| 0 <= k < ns.len() && (#[trigger] ns[k]) is Condition && node_id_v(ns[k]) == id;
            assert(nodes[k] is Condition && node_id(nodes[k]) == id);
        }
    }
    assert forall|id: Seq<char>| branches_ok(edges, id) == branches_ok_v(es, id) by {
        lemma_branches_view(edges, id);
    }
    if graph_valid(nodes, edges) {
        assert forall|k: int| 0 <= k < ns.len() && (#[trigger] ns[k]) is Condition implies branches_ok_v(
            es,
            node_id_v(ns[k]),
        ) by {
            assert(nodes[k] is Condition);
            assert(branches_ok(edges, node_id(nodes[k])));
        }
        assert forall|i: int| 0 <= i < es.len() implies has_node_v(ns, (#[trigger] es[i]).from)
            && has_node_v(ns, es[i].to) by {
            assert(has_node(nodes, edges[i].from@) && has_node(nodes, edges[i].to@));
        }
        assert forall|i: int| 0 <= i < es.len() implies (#[trigger] es[i]).from != "End"@ by {
            assert(edges[i].from@ != "End"@);
        }
        assert forall|i: int, j: int|
            0 <= i < es.len() && 0 <= j < es.len() && i != j && (#[trigger] es[i]).from == (
            #[trigger] es[j]).from implies is_condition_id_v(ns, es[i].from) by {
            assert(edges[i].from@ == edges[j].from@);
            assert(is_condition_id(nodes, edges[i].from@));
        }
        let s = choose|k: int| 0 <= k < nodes.len() && (#[trigger] nodes[k]) is Start;
        assert(ns[s] is Start);
        let e = choose|k: int| 0 <= k < nodes.len() && (#[trigger] nodes[k]) is End;
        assert(ns[e] is End);
    }
    if graph_valid_v(ns, es) {
        assert forall|k: int| 0 <= k < nodes.len() && (#[trigger] nodes[k]) is Condition implies branches_ok(
            edges,
            node_id(nodes[k]),
        ) by {
            assert(ns[k] is Condition);
            assert(branches_ok_v(es, node_id_v(ns[k])));
        }
        assert forall|i: int| 0 <= i < edges.len() implies has_node(nodes, (#[trigger] edges[i]).from@)
            && has_node(nodes, edges[i].to@) by {
            assert(has_node_v(ns, es[i].from) && has_node_v(ns, es[i].to));
        }
        assert forall|i: int| 0 <= i < edges.len() implies (#[trigger] edges[i]).from@ != "End"@ by {
            assert(es[i].from != "End"@);
        }
        assert forall|i: int, j: int|
            0 <= i < edges.len() && 0 <= j < edges.len() && i != j && (#[trigger] edges[i]).from@ == (
            #[trigger] edges[j]).from@ implies is_condition_id(nodes, edges[i].from@) by {
            assert(es[i].from == es[j].from);
            assert(is_condition_id_v(ns, es[i].from));
        }
        let s = choose|k: int| 0 <= k < ns.len() && (#[trigger] ns[k]) is Start;
        assert(nodes[s] is Start);
        let e = choose|k: int| 0 <= k < ns.len() && (#[trigger] ns[k]) is End;
        assert(nodes[e] is End);
    }
}

fn same_opt_text(a: &Option<String>, b: &Option<String>) -> (r: bool)
    ensures
        r == same_text_opt(*a, *b),
{
    match (a, b) {
        (None, None) => true,
        (Some(x), Some(y)) => *x == *y,
        _ => false,
    }
}

fn same_expr_exec(a: &Expr, b: &Expr) -> (r: bool)
    ensures
        r == same_expr(*a, *b),
    decreases a,
{
    match (a, b) {
        (Expr::IntLit { value: x }, Expr::IntLit { value: y }) => *x == *y,
        (Expr::StrLit { value: x }, Expr::StrLit { value: y }) => *x == *y,
        (Expr::BoolLit { value: x }, Expr::BoolLit { value: y }) => *x == *y,
        (Expr::Variable { name: x }, Expr::Variable { name: y }) => *x == *y,
        (Expr::Input, Expr::Input) => true,
        (Expr::Unary { op: o1, operand: x }, Expr::Unary { op: o2, operand: y }) => *o1 == *o2
            && same_expr_exec(x, y),
        (
            Expr::Binary { op: o1, left: l1, right: r1 },
            Expr::Binary { op: o2, left: l2, right: r2 },
        ) => *o1 == *o2 && same_expr_exec(l1, l2) && same_expr_exec(r1, r2),
        (
            Expr::Cast { expr: x, target_type: t1 },
            Expr::Cast { expr: y, target_type: t2 },
        ) => *t1 == *t2 && same_expr_exec(x, y),
        _ => false,
    }
}

fn same_statement_exec(a: &Statement, b: &Statement) -> (r: bool)
    ensures
        r == same_statement(*a, *b),
{
    match (a, b) {
        (Statement::Assign { variable: v1, value: e1 }, Statement::Assign { variable: v2, value: e2 }) =>
            *v1 == *v2 && same_expr_exec(e1, e2),
        (Statement::Println { expr: e1 }, Statement::Println { expr: e2 }) => same_expr_exec(e1, e2),
        (Statement::Print { expr: e1 }, Statement::Print { expr: e2 }) => same_expr_exec(e1, e2),
        (Statement::Error { message: e1 }, Statement::Error { message: e2 }) => same_expr_exec(
            e1,
            e2,
        ),
        _ => false,
    }
}

fn same_statements_exec(a: &Vec<Statement>, b: &Vec<Statement>) -> (r: bool)
    ensures
        r == same_statements(a@, b@),
{
    if a.len() != b.len() {
        return false;
    }
    let mut i: usize = 0;
    while i < a.len()
        invariant
            a.len() == b.len(),
            0 <= i <= a.len(),
            forall|k: int| 0 <= k < i ==> same_statement(#[trigger] a@[k], b@[k]),
        decreases a.len() - i,
    {
        if !same_statement_exec(&a[i], &b[i]) {
            return false;
        }
        i = i + 1;
    }
    true
}

fn same_node_exec(a: &Node, b: &Node) -> (r: bool)
    ensures
        r == same_node(*a, *b),
{
    match (a, b) {
        (Node::Start { label: x }, Node::Start { label: y }) => same_opt_text(x, y),
        (Node::End { label: x }, Node::End { label: y }) => same_opt_text(x, y),
        (Node::Process { id: i1, statements: s1 }, Node::Process { id: i2, statements: s2 }) =>
            *i1 == *i2 && same_statements_exec(s1, s2),
        (Node::Condition { id: i1, condition: c1 }, Node::Condition { id: i2, condition: c2 }) =>
            *i1 == *i2 && same_expr_exec(c1, c2),
        _ => false,
    }
}

/// The index of the node with identifier `id`, if any.
pub fn find_node(nodes: &Vec<Node>, id: &str) -> (r: Option<usize>)
    ensures
        match r {
            Some(k) => k < nodes.len() && node_id(nodes@[k as int]) == id@,
            None => !has_node(nodes@, id@),
        },
{
    let mut k: usize = 0;
    while k < nodes.len()
        invariant
            0 <= k <= nodes.len(),
            forall|j: int| 0 <= j < k ==> node_id(#[trigger] nodes@[j]) != id@,
        decreases nodes.len() - k,
    {
        if same_text(nodes[k].id(), id) {
            return Some(k);
        }
        k = k + 1;
    }
    None
}

/// The message for a node defined twice in conflicting ways.
pub open spec fn conflict_message(id: Seq<char>) -> Seq<char> {
    "Node '"@ + id + "' is defined multiple times"@
}

fn defined_twice(id: &str) -> (r: ValidationError)
    ensures
        r.text() == conflict_message(id@),
{
    let a = concat("Node '", id);
    let b = concat(a.as_str(), "' is defined multiple times");
    ValidationError::new(b.as_str())
}

/// Adds a node definition to the collection under the merge rule: a new
/// identifier is appended; for a known one, `merge_outcome` decides whether
/// the existing node stays, is replaced, or the definitions conflict.
pub fn insert_node(nodes: &mut Vec<Node>, node: Node) -> (r: Result<(), ValidationError>)
    requires
        ids_unique(old(nodes)@),
    ensures
        ids_unique(final(nodes)@),
        !has_node(old(nodes)@, node_id(node)) ==> r is Ok && final(nodes)@ == old(nodes)@.push(
            node,
        ),
        forall|k: int|
            0 <= k < old(nodes)@.len() && node_id(#[trigger] old(nodes)@[k]) == node_id(node) ==> {
                match merge_outcome(old(nodes)@[k], node) {
                    Some(true) => r is Ok && final(nodes)@ == old(nodes)@.update(k, node),
                    Some(false) => r is Ok && final(nodes)@ == old(nodes)@,
                    None => r is Err && final(nodes)@ == old(nodes)@,
                }
            },
        match insert_v(nodes_view(old(nodes)@), node_view(node)) {
            Some(ns) => r is Ok && nodes_view(final(nodes)@) == ns,
            None => r matches Err(e) && e.text() == conflict_message(node_id(node)),
        },
{
    let ghost olds = old(nodes)@;
    let ghost vs = nodes_view(olds);
    proof {
        assert forall|k: int| 0 <= k < olds.len() implies node_id_v(#[trigger] vs[k]) == node_id(
            olds[k],
        ) by {}
        assert(node_id_v(node_view(node)) == node_id(node));
    }
    match find_node(nodes, node.id()) {
        None => {
            nodes.push(node);
            proof {
                assert(nodes_view(nodes@) =~= vs.push(node_view(node)));
            }
            Ok(())
        },
        Some(k) => {
            proof {
                let c = choose|j: int| 0 <= j < vs.len() && node_id_v(#[trigger] vs[j]) == node_id_v(node_view(node));
                assert(0 <= c < vs.len() && node_id_v(vs[c]) == node_id_v(node_view(node)));
                assert(c == k);
                lemma_same_node_view(olds[k as int], node);
                assert(merge_outcome_v(vs[k as int], node_view(node)) == merge_outcome(olds[k as int], node));
            }
            let existing = &nodes[k];
            let replace = match (existing, &node) {
                (Node::Start { .. }, Node::Start { label: None }) => false,
                (Node::End { .. }, Node::End { label: None }) => false,
                (Node::Start { label: None }, Node::Start { label: Some(_) }) => true,
                (Node::End { label: None }, Node::End { label: Some(_) }) => true,
                _ => {
                    if same_node_exec(existing, &node) {
                        false
                    } else {
                        return Err(defined_twice(node.id()));
                    }
                },
            };
            if replace {
                nodes.set(k, node);
                proof {
                    assert(nodes_view(nodes@) =~= vs.update(k as int, node_view(node)));
                }
            }
            Ok(())
        },
    }
}

/// The message for the edges leaving condition `id`, read in order from
/// `j`, given whether a `Yes` and a `No` edge were already seen: a second
/// `Yes` or `No`, a custom label or a missing label is reported where it
/// stands; a missing `Yes`, then a missing `No`, at the end.
pub open spec fn branch_scan(es: Seq<EdgeV>, id: Seq<char>, j: int, yes: bool, no: bool) -> Option<
    Seq<char>,
>
    decreases es.len() - j,
{
    if j < 0 || j >= es.len() {
        if !yes {
            Some("Condition node '"@ + id + "' is missing 'Yes' edge"@)
        } else if !no {
            Some("Condition node '"@ + id + "' is missing 'No' edge"@)
        } else {
            None
        }
    } else if es[j].from != id {
        branch_scan(es, id, j + 1, yes, no)
    } else {
        match es[j].label {
            Some(LabelV::Yes) => if yes {
                Some("Condition node '"@ + id + "' has multiple 'Yes' edges"@)
            } else {
                branch_scan(es, id, j + 1, true, no)
            },
            Some(LabelV::No) => if no {
                Some("Condition node '"@ + id + "' has multiple 'No' edges"@)
            } else {
                branch_scan(es, id, j + 1, yes, true)
            },
            Some(LabelV::Custom(t)) => Some(
                "Condition node '"@ + id + "' must have 'Yes' or 'No' label, but got '"@ + t + "'"@,
            ),
            None => Some("Edge from condition node '"@ + id + "' must have 'Yes' or 'No' label"@),
        }
    }
}

/// The message of the first condition node, from the `k`-th on, whose
/// edges break the branch rule.
pub open spec fn first_branch_error(ns: Seq<NodeV>, es: Seq<EdgeV>, k: int) -> Option<Seq<char>>
    decreases ns.len() - k,
{
    if k < 0 || k >= ns.len() {
        None
    } else {
        match ns[k] {
            NodeV::Condition(id, _) => match branch_scan(es, id, 0, false, false) {
                Some(m) => Some(m),
                None => first_branch_error(ns, es, k + 1),
            },
            _ => first_branch_error(ns, es, k + 1),
        }
    }
}

/// The message naming the first edge, from the `i`-th on, with an endpoint
/// that is no node: its source if that is undefined, else its target.
pub open spec fn first_undefined(ns: Seq<NodeV>, es: Seq<EdgeV>, i: int) -> Option<Seq<char>>
    decreases es.len() - i,
{
    if i < 0 || i >= es.len() {
        None
    } else if !has_node_v(ns, es[i].from) || !has_node_v(ns, es[i].to) {
        let m = if !has_node_v(ns, es[i].from) {
            es[i].from
        } else {
            es[i].to
        };
        Some(
            "Undefined node '"@ + m + "' referenced in edge from '"@ + es[i].from + "' to '"@
                + es[i].to + "'"@,
        )
    } else {
        first_undefined(ns, es, i + 1)
    }
}

/// The message naming the source of the first edge, from the `i`-th on,
/// that shares its source with another edge and does not leave a condition.
pub open spec fn first_fan_out(ns: Seq<NodeV>, es: Seq<EdgeV>, i: int) -> Option<Seq<char>>
    decreases es.len() - i,
{
    if i < 0 || i >= es.len() {
        None
    } else if (exists|j: int| 0 <= j < es.len() && j != i && (#[trigger] es[j]).from == es[i].from)
        && !is_condition_id_v(ns, es[i].from) {
        Some("Node '"@ + es[i].from + "' has multiple outgoing edges (expected at most 1)"@)
    } else {
        first_fan_out(ns, es, i + 1)
    }
}

/// The message of the first structural rule broken, checked in this
/// order: condition branches, `Start`, `End`, edge endpoints, an edge out
/// of `End`, fan-out.
pub open spec fn validation_message(ns: Seq<NodeV>, es: Seq<EdgeV>) -> Option<Seq<char>> {
    match first_branch_error(ns, es, 0) {
        Some(m) => Some(m),
        None => if !(exists|k: int| 0 <= k < ns.len() && (#[trigger] ns[k]) is Start) {
            Some("Missing 'Start' node"@)
        } else if !(exists|k: int| 0 <= k < ns.len() && (#[trigger] ns[k]) is End) {
            Some("Missing 'End' node"@)
        } else {
            match first_undefined(ns, es, 0) {
                Some(m) => Some(m),
                None => if exists|i: int| 0 <= i < es.len() && (#[trigger] es[i]).from == "End"@ {
                    Some("End node cannot have outgoing edges"@)
                } else {
                    first_fan_out(ns, es, 0)
                },
            }
        },
    }
}

proof fn lemma_has_node_view(nodes: Seq<Node>, id: Seq<char>)
    ensures
        has_node(nodes, id) == has_node_v(nodes_view(nodes), id),
        is_condition_id(nodes, id) == is_condition_id_v(nodes_view(nodes), id),
{
    let ns = nodes_view(nodes);
    if has_node(nodes, id) {
        let k = choose|k: int| 0 <= k < nodes.len() && node_id(#[trigger] nodes[k]) == id;
        assert(node_id_v(ns[k]) == id);
    }
    if has_node_v(ns, id) {
        let k = choose|k: int| 0 <= k < ns.len() && node_id_v(#[trigger] ns[k]) == id;
        assert(node_id(nodes[k]) == id);
    }
    if is_condition_id(nodes, id) {
        let k = choose|k: int| 0 <= k < nodes.len() && (#[trigger] nodes[k]) is Condition && node_id(nodes[k]) == id;
        assert(ns[k] is Condition && node_id_v(ns[k]) == id);
    }
    if is_condition_id_v(ns, id) {
        let k = choose|k: int| 0 <= k < ns.len() && (#[trigger] ns[k]) is Condition && node_id_v(ns[k]) == id;
        assert(nodes[k] is Condition && node_id(nodes[k]) == id);
    }
}

fn message(a: &str, b: &str, c: &str) -> (r: ValidationError)
    ensures
        r.text() == a@ + b@ + c@,
{
    let x = concat(a, b);
    let y = concat(x.as_str(), c);
    ValidationError::new(y.as_str())
}

/// Checks the edges leaving condition node `id`: each is labeled `Yes` or
/// `No`, and there is exactly one of each.
fn check_branches(edges: &Vec<Edge>, id: &str) -> (r: Result<(), ValidationError>)
    ensures
        r is Ok <==> branches_ok(edges@, id@),
        match r {
            Ok(_) => branch_scan(edges_view(edges@), id@, 0, false, false) is None,
            Err(e) => branch_scan(edges_view(edges@), id@, 0, false, false) == Some(e.text()),
        },
{
    let ghost es = edges_view(edges@);
    let mut has_yes = false;
    let mut has_no = false;
    let ghost mut yes_at: int = 0;
    let ghost mut no_at: int = 0;
    let mut j: usize = 0;
    while j < edges.len()
        invariant
            0 <= j <= edges.len(),
            forall|i: int|
                0 <= i < j && (#[trigger] edges@[i]).from@ == id@ ==> (edges@[i].label == Some(
                    EdgeLabel::Yes,
                ) || edges@[i].label == Some(EdgeLabel::No)),
            has_yes ==> 0 <= yes_at < j && edges@[yes_at].from@ == id@ && edges@[yes_at].label
                == Some(EdgeLabel::Yes),
            !has_yes ==> forall|i: int|
                0 <= i < j && (#[trigger] edges@[i]).from@ == id@ ==> edges@[i].label != Some(
                    EdgeLabel::Yes,
                ),
            has_no ==> 0 <= no_at < j && edges@[no_at].from@ == id@ && edges@[no_at].label
                == Some(EdgeLabel::No),
            !has_no ==> forall|i: int|
                0 <= i < j && (#[trigger] edges@[i]).from@ == id@ ==> edges@[i].label != Some(
                    EdgeLabel::No,
                ),
            forall|a: int, b: int|
                0 <= a < j && 0 <= b < j && (#[trigger] edges@[a]).from@ == id@ && (
                #[trigger] edges@[b]).from@ == id@ && edges@[a].label == edges@[b].label ==> a == b,
            es == edges_view(edges@),
            branch_scan(es, id@, 0, false, false) == branch_scan(es, id@, j as int, has_yes, has_no),
        decreases edges.len() - j,
    {
        assert(es[j as int] == edge_view(edges@[j as int]));
        let edge = &edges[j];
        if edge.from == id.to_owned() {
            match &edge.label {
                Some(EdgeLabel::Yes) => {
                    if has_yes {
                        return Err(message("Condition node '", id, "' has multiple 'Yes' edges"));
                    }
                    has_yes = true;
                    proof {
                        yes_at = j as int;
                    }
                },
                Some(EdgeLabel::No) => {
                    if has_no {
                        return Err(message("Condition node '", id, "' has multiple 'No' edges"));
                    }
                    has_no = true;
                    proof {
                        no_at = j as int;
                    }
                },
                Some(EdgeLabel::Custom(s)) => {
                    let a = concat("Condition node '", id);
                    let b = concat(a.as_str(), "' must have 'Yes' or 'No' label, but got '");
                    return Err(message(b.as_str(), s.as_str(), "'"));
                },
                None => {
                    return Err(
                        message("Edge from condition node '", id, "' must have 'Yes' or 'No' label"),
                    );
                },
            }
        }
        j = j + 1;
    }
    if !has_yes {
        return Err(message("Condition node '", id, "' is missing 'Yes' edge"));
    }
    if !has_no {
        return Err(message("Condition node '", id, "' is missing 'No' edge"));
    }
    Ok(())
}

/// Whether some condition node has identifier `id`.
fn condition_exists(nodes: &Vec<Node>, id: &str) -> (r: bool)
    ensures
        r == is_condition_id(nodes@, id@),
{
    let mut k: usize = 0;
    while k < nodes.len()
        invariant
            0 <= k <= nodes.len(),
            forall|m: int|
                0 <= m < k && (#[trigger] nodes@[m]) is Condition ==> node_id(nodes@[m]) != id@,
        decreases nodes.len() - k,
    {
        if let Node::Condition { id: cid, .. } = &nodes[k] {
            if same_text(cid.as_str(), id) {
                return true;
            }
        }
        k = k + 1;
    }
    false
}

/// Whether another edge than the `i`-th leaves the same node.
fn shares_source(edges: &Vec<Edge>, i: usize) -> (r: bool)
    requires
        i < edges.len(),
    ensures
        r == exists|j: int|
            0 <= j < edges.len() && j != i && (#[trigger] edges@[j]).from@ == edges@[i as int].from@,
{
    let mut j: usize = 0;
    while j < edges.len()
        invariant
            0 <= j <= edges.len(),
            i < edges.len(),
            forall|m: int|
                0 <= m < j && m != i ==> (#[trigger] edges@[m]).from@ != edges@[i as int].from@,
        decreases edges.len() - j,
    {
        if j != i && edges[j].from == edges[i].from {
            return true;
        }
        j = j + 1;
    }
    false
}

/// Checks the structural rules of a flowchart, in this order: condition
/// branches, presence of `Start` and `End`, edge endpoints, no edge out of
/// `End`, at most one outgoing edge for non-condition nodes. The result is
/// `Ok` exactly when `graph_valid` holds; the error names the first rule
/// broken.
pub fn validate_flowchart(nodes: &Vec<Node>, edges: &Vec<Edge>) -> (r: Result<(), ValidationError>)
    ensures
        r is Ok <==> graph_valid(nodes@, edges@),
        r matches Err(e) ==> validation_message(nodes_view(nodes@), edges_view(edges@)) == Some(
            e.text(),
        ),
{
    let ghost ns = nodes_view(nodes@);
    let ghost es = edges_view(edges@);
    proof {
        assert forall|m: int| 0 <= m < nodes.len() implies #[trigger] ns[m] == node_view(nodes@[m]) by {}
        assert forall|m: int| 0 <= m < edges.len() implies #[trigger] es[m] == edge_view(edges@[m]) by {}
    }
    let mut k: usize = 0;
    while k < nodes.len()
        invariant
            0 <= k <= nodes.len(),
            ns == nodes_view(nodes@),
            es == edges_view(edges@),
            forall|m: int| 0 <= m < nodes.len() ==> #[trigger] ns[m] == node_view(nodes@[m]),
            first_branch_error(ns, es, 0) == first_branch_error(ns, es, k as int),
            forall|m: int|
                0 <= m < k && (#[trigger] nodes@[m]) is Condition ==> branches_ok(
                    edges@,
                    node_id(nodes@[m]),
                ),
        decreases nodes.len() - k,
    {
        assert(ns[k as int] == node_view(nodes@[k as int]));
        if let Node::Condition { id, .. } = &nodes[k] {
            if let Err(e) = check_branches(edges, id.as_str()) {
                return Err(e);
            }
        }
        k = k + 1;
    }
    let mut found_start = false;
    let mut found_end = false;
    let mut k: usize = 0;
    while k < nodes.len()
        invariant
            0 <= k <= nodes.len(),
            ns == nodes_view(nodes@),
            es == edges_view(edges@),
            first_branch_error(ns, es, 0) is None,
            found_start == exists|m: int| 0 <= m < k && (#[trigger] nodes@[m]) is Start,
            found_end == exists|m: int| 0 <= m < k && (#[trigger] nodes@[m]) is End,
        decreases nodes.len() - k,
    {
        match &nodes[k] {
            Node::Start { .. } => {
                found_start = true;
            },
            Node::End { .. } => {
                found_end = true;
            },
            _ => {},
        }
        k = k + 1;
    }
    proof {
        if exists|m: int| 0 <= m < ns.len() && (#[trigger] ns[m]) is Start {
            let m = choose|m: int| 0 <= m < ns.len() && (#[trigger] ns[m]) is Start;
            assert(nodes@[m] is Start);
        }
        if exists|m: int| 0 <= m < ns.len() && (#[trigger] ns[m]) is End {
            let m = choose|m: int| 0 <= m < ns.len() && (#[trigger] ns[m]) is End;
            assert(nodes@[m] is End);
        }
    }
    if !found_start {
        return Err(ValidationError::new("Missing 'Start' node"));
    }
    if !found_end {
        return Err(ValidationError::new("Missing 'End' node"));
    }
    proof {
        let s0 = choose|m: int| 0 <= m < nodes.len() && (#[trigger] nodes@[m]) is Start;
        assert(ns[s0] is Start);
        let e0 = choose|m: int| 0 <= m < nodes.len() && (#[trigger] nodes@[m]) is End;
        assert(ns[e0] is End);
    }
    let mut i: usize = 0;
    while i < edges.len()
        invariant
            0 <= i <= edges.len(),
            ns == nodes_view(nodes@),
            es == edges_view(edges@),
            forall|m: int| 0 <= m < edges.len() ==> #[trigger] es[m] == edge_view(edges@[m]),
            first_branch_error(ns, es, 0) is None,
            exists|m: int| 0 <= m < ns.len() && (#[trigger] ns[m]) is Start,
            exists|m: int| 0 <= m < ns.len() && (#[trigger] ns[m]) is End,
            first_undefined(ns, es, 0) == first_undefined(ns, es, i as int),
            forall|m: int|
                0 <= m < i ==> has_node(nodes@, (#[trigger] edges@[m]).from@) && has_node(
                    nodes@,
                    edges@[m].to@,
                ),
        decreases edges.len() - i,
    {
        let edge = &edges[i];
        proof {
            assert(es[i as int] == edge_view(edges@[i as int]));
            lemma_has_node_view(nodes@, edge.from@);
            lemma_has_node_view(nodes@, edge.to@);
        }
        let missing = if find_node(nodes, edge.from.as_str()).is_none() {
            Some(edge.from.as_str())
        } else if find_node(nodes, edge.to.as_str()).is_none() {
            Some(edge.to.as_str())
        } else {
            None
        };
        if let Some(name) = missing {
            let a = concat("Undefined node '", name);
            let b = concat(a.as_str(), "' referenced in edge from '");
            let c = concat(b.as_str(), edge.from.as_str());
            let d = concat(c.as_str(), "' to '");
            return Err(message(d.as_str(), edge.to.as_str(), "'"));
        }
        i = i + 1;
    }
    let mut i: usize = 0;
    while i < edges.len()
        invariant
            0 <= i <= edges.len(),
            ns == nodes_view(nodes@),
            es == edges_view(edges@),
            first_branch_error(ns, es, 0) is None,
            exists|m: int| 0 <= m < ns.len() && (#[trigger] ns[m]) is Start,
            exists|m: int| 0 <= m < ns.len() && (#[trigger] ns[m]) is End,
            first_undefined(ns, es, 0) is None,
            forall|m: int| 0 <= m < edges.len() ==> #[trigger] es[m] == edge_view(edges@[m]),
            forall|m: int| 0 <= m < i ==> (#[trigger] edges@[m]).from@ != "End"@,
        decreases edges.len() - i,
    {
        if same_text(edges[i].from.as_str(), "End") {
            proof {
                assert(es[i as int].from == "End"@);
            }
            return Err(ValidationError::new("End node cannot have outgoing edges"));
        }
        i = i + 1;
    }
    proof {
        if exists|m: int| 0 <= m < es.len() && (#[trigger] es[m]).from == "End"@ {
            let m = choose|m: int| 0 <= m < es.len() && (#[trigger] es[m]).from == "End"@;
            assert(edges@[m].from@ == "End"@);
        }
    }
    let mut i: usize = 0;
    while i < edges.len()
        invariant
            0 <= i <= edges.len(),
            ns == nodes_view(nodes@),
            es == edges_view(edges@),
            forall|m: int| 0 <= m < edges.len() ==> #[trigger] es[m] == edge_view(edges@[m]),
            first_branch_error(ns, es, 0) is None,
            exists|m: int| 0 <= m < ns.len() && (#[trigger] ns[m]) is Start,
            exists|m: int| 0 <= m < ns.len() && (#[trigger] ns[m]) is End,
            first_undefined(ns, es, 0) is None,
            !exists|m: int| 0 <= m < es.len() && (#[trigger] es[m]).from == "End"@,
            first_fan_out(ns, es, 0) == first_fan_out(ns, es, i as int),
            forall|a: int, b: int|
                0 <= a < i && 0 <= b < edges.len() && a != b && (#[trigger] edges@[a]).from@ == (
                #[trigger] edges@[b]).from@ ==> is_condition_id(nodes@, edges@[a].from@),
        decreases edges.len() - i,
    {
        proof {
            lemma_has_node_view(nodes@, edges@[i as int].from@);
            assert(es[i as int].from == edges@[i as int].from@);
            if exists|j: int| 0 <= j < es.len() && j != i && (#[trigger] es[j]).from == es[i as int].from {
                let j = choose|j: int| 0 <= j < es.len() && j != i && (#[trigger] es[j]).from == es[i as int].from;
                assert(edges@[j].from@ == edges@[i as int].from@);
            }
            if exists|j: int| 0 <= j < edges.len() && j != i && (#[trigger] edges@[j]).from@ == edges@[i as int].from@ {
                let j = choose|j: int| 0 <= j < edges.len() && j != i && (#[trigger] edges@[j]).from@ == edges@[i as int].from@;
                assert(es[j].from == es[i as int].from);
            }
        }
        if shares_source(edges, i) && !condition_exists(nodes, edges[i].from.as_str()) {
            return Err(
                message(
                    "Node '",
                    edges[i].from.as_str(),
                    "' has multiple outgoing edges (expected at most 1)",
                ),
            );
        }
        i = i + 1;
    }
    Ok(())
}

} // verus!
