//! The graph interpreter: a state machine over node identifiers that walks
//! a flowchart from `Start` to `End`.
use vstd::prelude::*;
use crate::ast::{node_id, Edge, EdgeLabel, Flowchart, Node, Statement};
use crate::runtime::env::Environment;
use crate::runtime::eval::{eval_logged, eval_spec, uses_input, InputReader};
use crate::runtime::exec::{exec_logged, exec_out, exec_spec, statement_reads_input, OutputWriter, Stream};
use crate::runtime::value::{type_tag, ErrorV, RuntimeError, Value, ValueV};
use crate::text::same_text;

verus! {

/// The node the table yields for an identifier: the last one carrying it.
pub open spec fn lookup_node(nodes: Seq<Node>, id: Seq<char>) -> Option<Node>
    decreases nodes.len(),
{
    if nodes.len() == 0 {
        None
    } else if node_id(nodes.last()) == id {
        Some(nodes.last())
    } else {
        lookup_node(nodes.drop_last(), id)
    }
}

/// The index of the first edge leaving `id`.
pub open spec fn first_edge_from(edges: Seq<Edge>, id: Seq<char>) -> Option<int>
    decreases edges.len(),
{
    if edges.len() == 0 {
        None
    } else {
        match first_edge_from(edges.drop_last(), id) {
            Some(i) => Some(i),
            None => if edges.last().from@ == id {
                Some(edges.len() - 1)
            } else {
                None
            },
        }
    }
}

/// The label of the branch taken for a condition result.
pub open spec fn branch_label(b: bool) -> Option<EdgeLabel> {
    if b {
        Some(EdgeLabel::Yes)
    } else {
        Some(EdgeLabel::No)
    }
}

/// The index of the first edge leaving `id` with the branch label of `b`.
pub open spec fn first_branch(edges: Seq<Edge>, id: Seq<char>, b: bool) -> Option<int>
    decreases edges.len(),
{
    if edges.len() == 0 {
        None
    } else {
        match first_branch(edges.drop_last(), id, b) {
            Some(i) => Some(i),
            None => if edges.last().from@ == id && edges.last().label == branch_label(b) {
                Some(edges.len() - 1)
            } else {
                None
            },
        }
    }
}

/// The variables after running statements that read no input in order, or
/// the first error.
pub open spec fn run_block(stmts: Seq<Statement>, env: Map<Seq<char>, ValueV>) -> Result<
    Map<Seq<char>, ValueV>,
    ErrorV,
>
    decreases stmts.len(),
{
    if stmts.len() == 0 {
        Ok(env)
    } else {
        match run_block(stmts.drop_last(), env) {
            Ok(e) => exec_spec(stmts.last(), e),
            Err(e) => Err(e),
        }
    }
}

/// Whether executing the node reads input.
pub open spec fn node_reads_input(n: Node) -> bool {
    match n {
        Node::Process { statements, .. } => exists|i: int|
            0 <= i < statements.len() && statement_reads_input(#[trigger] statements@[i]),
        Node::Condition { condition, .. } => uses_input(condition),
        _ => false,
    }
}

/// The outcome of one step.
pub enum StepV {
    /// `End` was reached.
    Finished,
    /// Control moved to node `to`, with variables `env`.
    Moved { to: Seq<char>, env: Map<Seq<char>, ValueV> },
    /// The run failed.
    Failed(ErrorV),
}

/// Following the single edge out of `cur`.
pub open spec fn move_spec(edges: Seq<Edge>, cur: Seq<char>, env: Map<Seq<char>, ValueV>) -> StepV {
    match first_edge_from(edges, cur) {
        None => StepV::Failed(ErrorV::NoOutgoingEdge { node_id: cur }),
        Some(i) => StepV::Moved { to: edges[i].to@, env },
    }
}

/// One transition of the interpreter at node `cur`: `Start` follows its
/// edge, `End` finishes, a process node runs its statements and follows its
/// edge, a condition node evaluates a boolean and follows the matching
/// `Yes` or `No` edge.
pub open spec fn step_spec(
    nodes: Seq<Node>,
    edges: Seq<Edge>,
    cur: Seq<char>,
    env: Map<Seq<char>, ValueV>,
) -> StepV {
    match lookup_node(nodes, cur) {
        None => StepV::Failed(ErrorV::NodeNotFound { node_id: cur }),
        Some(Node::Start { .. }) => move_spec(edges, cur, env),
        Some(Node::End { .. }) => StepV::Finished,
        Some(Node::Process { statements, .. }) => match run_block(statements@, env) {
            Err(e) => StepV::Failed(e),
            Ok(env2) => move_spec(edges, cur, env2),
        },
        Some(Node::Condition { condition, .. }) => match eval_spec(condition, env) {
            Err(e) => StepV::Failed(e),
            Ok(ValueV::Bool(b)) => match first_branch(edges, cur, b) {
                None => StepV::Failed(ErrorV::NoMatchingConditionEdge { node_id: cur, condition_result: b }),
                Some(i) => StepV::Moved { to: edges[i].to@, env },
            },
            Ok(v) => StepV::Failed(
                ErrorV::TypeError {
                    expected: "bool"@,
                    actual: type_tag(v),
                    operation: "condition evaluation"@,
                },
            ),
        },
    }
}

/// Whether the step from `cur` reads no input, so that `step_spec` gives its
/// outcome.
pub open spec fn step_is_determined(nodes: Seq<Node>, cur: Seq<char>) -> bool {
    match lookup_node(nodes, cur) {
        Some(n) => !node_reads_input(n),
        None => true,
    }
}

/// Whether a step's result and the state after it are the outcome `expected`.
pub open spec fn outcome_matches(
    expected: StepV,
    r: Result<bool, RuntimeError>,
    cur: Seq<char>,
    env: Map<Seq<char>, ValueV>,
    cur_after: Seq<char>,
    env_after: Map<Seq<char>, ValueV>,
) -> bool {
    match expected {
        StepV::Finished => r == Ok::<bool, RuntimeError>(true) && cur_after == cur && env_after == env,
        StepV::Moved { to, env: e } => r == Ok::<bool, RuntimeError>(false) && cur_after == to
            && env_after == e,
        StepV::Failed(e) => r is Err && r->Err_0@ == e,
    }
}

/// The outcome of at most `n` steps from node `cur` with variables `env`:
/// the first step that finishes or fails decides it; after `n` moves,
/// the node and variables reached.
pub open spec fn run_spec(
    nodes: Seq<Node>,
    edges: Seq<Edge>,
    cur: Seq<char>,
    env: Map<Seq<char>, ValueV>,
    n: nat,
) -> StepV
    decreases n,
{
    if n == 0 {
        StepV::Moved { to: cur, env }
    } else {
        match step_spec(nodes, edges, cur, env) {
            StepV::Moved { to, env: e2 } => run_spec(nodes, edges, to, e2, (n - 1) as nat),
            other => other,
        }
    }
}

/// Whether each of the at most `n` steps from `cur` reads no input, so that
/// `run_spec` gives their outcome.
pub open spec fn run_determined(
    nodes: Seq<Node>,
    edges: Seq<Edge>,
    cur: Seq<char>,
    env: Map<Seq<char>, ValueV>,
    n: nat,
) -> bool
    decreases n,
{
    n == 0 || (step_is_determined(nodes, cur) && match step_spec(nodes, edges, cur, env) {
        StepV::Moved { to, env: e2 } => run_determined(nodes, edges, to, e2, (n - 1) as nat),
        _ => true,
    })
}

/// Whether a statement of `stmts` assigns the variable `k`.
pub open spec fn assigns(stmts: Seq<Statement>, k: Seq<char>) -> bool {
    exists|i: int|
        0 <= i < stmts.len() && (#[trigger] stmts[i]) is Assign && stmts[i]->Assign_variable@ == k
}

/// Whether the node, a process node, assigns the variable `k`.
pub open spec fn node_assigns(n: Option<Node>, k: Seq<char>) -> bool {
    match n {
        Some(Node::Process { statements, .. }) => assigns(statements@, k),
        _ => false,
    }
}

/// Whether every variable that node `n` does not assign is as it was.
pub open spec fn keeps_unassigned(
    before: Map<Seq<char>, ValueV>,
    after: Map<Seq<char>, ValueV>,
    n: Option<Node>,
) -> bool {
    forall|k: Seq<char>|
        !node_assigns(n, k) ==> (#[trigger] after.contains_key(k) == before.contains_key(k) && (
        before.contains_key(k) ==> after[k] == before[k]))
}

/// Whether some edge leads from `from` to `to`.
pub open spec fn moves_along_edge(edges: Seq<Edge>, from: Seq<char>, to: Seq<char>) -> bool {
    exists|i: int| 0 <= i < edges.len() && (#[trigger] edges[i]).from@ == from && edges[i].to@ == to
}

/// Whether the node at `cur` is `End`.
pub open spec fn at_end(nodes: Seq<Node>, cur: Seq<char>) -> bool {
    lookup_node(nodes, cur) matches Some(n) && n is End
}

/// What statements that read no input write when run in order, up to and
/// including the first that fails.
pub open spec fn block_out(stmts: Seq<Statement>, env: Map<Seq<char>, ValueV>) -> Seq<
    (Stream, Seq<char>),
>
    decreases stmts.len(),
{
    if stmts.len() == 0 {
        Seq::empty()
    } else {
        match run_block(stmts.drop_last(), env) {
            Ok(e) => block_out(stmts.drop_last(), env) + exec_out(stmts.last(), e),
            Err(_) => block_out(stmts.drop_last(), env),
        }
    }
}

/// What one step from `cur` writes: a process node's statements' output.
pub open spec fn step_out(nodes: Seq<Node>, cur: Seq<char>, env: Map<Seq<char>, ValueV>) -> Seq<
    (Stream, Seq<char>),
> {
    match lookup_node(nodes, cur) {
        Some(Node::Process { statements, .. }) => block_out(statements@, env),
        _ => Seq::empty(),
    }
}

/// What at most `n` steps from `cur` write, in order.
pub open spec fn run_out(
    nodes: Seq<Node>,
    edges: Seq<Edge>,
    cur: Seq<char>,
    env: Map<Seq<char>, ValueV>,
    n: nat,
) -> Seq<(Stream, Seq<char>)>
    decreases n,
{
    if n == 0 {
        Seq::empty()
    } else {
        step_out(nodes, cur, env) + match step_spec(nodes, edges, cur, env) {
            StepV::Moved { to, env: e2 } => run_out(nodes, edges, to, e2, (n - 1) as nat),
            _ => Seq::empty(),
        }
    }
}

proof fn lemma_block_error_persists(stmts: Seq<Statement>, env: Map<Seq<char>, ValueV>, j: int, k: int)
    requires
        0 <= j <= k <= stmts.len(),
        run_block(stmts.take(j), env) is Err,
    ensures
        run_block(stmts.take(k), env) == run_block(stmts.take(j), env),
        block_out(stmts.take(k), env) == block_out(stmts.take(j), env),
    decreases k - j,
{
    if k > j {
        lemma_block_error_persists(stmts, env, j, k - 1);
        assert(stmts.take(k).drop_last() =~= stmts.take(k - 1));
    }
}

/// Runs a flowchart against an input source and an output sink.
pub struct Interpreter<R: InputReader, W: OutputWriter> {
    nodes: Vec<Node>,
    edges: Vec<Edge>,
    current_node_id: String,
    env: Environment,
    input_reader: R,
    output_writer: W,
    written: Ghost<Seq<(Stream, Seq<char>)>>,
    reads: Ghost<Seq<Result<Seq<char>, ErrorV>>>,
}

impl<R: InputReader, W: OutputWriter> Interpreter<R, W> {
    /// The node table.
    pub closed spec fn node_table(&self) -> Seq<Node> {
        self.nodes@
    }

    /// The edges, in source order.
    pub closed spec fn edge_list(&self) -> Seq<Edge> {
        self.edges@
    }

    /// The identifier of the current node.
    pub closed spec fn current(&self) -> Seq<char> {
        self.current_node_id@
    }

    /// Everything handed to the output sink so far, in order, with its
    /// stream.
    pub closed spec fn output(&self) -> Seq<(Stream, Seq<char>)> {
        self.written@
    }

    /// What every read of input gave so far, in order.
    pub closed spec fn input_seen(&self) -> Seq<Result<Seq<char>, ErrorV>> {
        self.reads@
    }

    /// The input source.
    pub closed spec fn source(&self) -> R {
        self.input_reader
    }

    /// The output sink.
    pub closed spec fn sink(&self) -> W {
        self.output_writer
    }

    /// The variables.
    pub closed spec fn variables(&self) -> Map<Seq<char>, ValueV> {
        self.env@
    }

    /// Builds an interpreter positioned at `Start` with no variables. Fails
    /// with `MissingStartNode` when no node is `Start`, else with
    /// `MissingEndNode` when none is `End`.
    pub fn with_io(flowchart: Flowchart, input_reader: R, output_writer: W) -> (r: Result<
        Self,
        RuntimeError,
    >)
        ensures
            !(exists|k: int| 0 <= k < flowchart.nodes@.len() && (#[trigger] flowchart.nodes@[k]) is Start)
                ==> r matches Err(RuntimeError::MissingStartNode),
            (exists|k: int| 0 <= k < flowchart.nodes@.len() && (#[trigger] flowchart.nodes@[k]) is Start)
                && !(exists|k: int|
                0 <= k < flowchart.nodes@.len() && (#[trigger] flowchart.nodes@[k]) is End) ==> r matches Err(
                RuntimeError::MissingEndNode,
            ),
            (exists|k: int| 0 <= k < flowchart.nodes@.len() && (#[trigger] flowchart.nodes@[k]) is Start)
                && (exists|k: int|
                0 <= k < flowchart.nodes@.len() && (#[trigger] flowchart.nodes@[k]) is End) ==> (r matches Ok(
                it) && it.node_table() == flowchart.nodes@ && it.edge_list() == flowchart.edges@
                && it.current() == "Start"@ && it.variables().dom() == Set::<Seq<char>>::empty()
                && it.source() == input_reader && it.sink() == output_writer && it.output()
                == Seq::<(Stream, Seq<char>)>::empty() && it.input_seen() == Seq::<
                Result<Seq<char>, ErrorV>,
            >::empty()),
    {
        let nodes = flowchart.nodes;
        let mut has_start = false;
        let mut has_end = false;
        let mut k: usize = 0;
        while k < nodes.len()
            invariant
                0 <= k <= nodes.len(),
                has_start == exists|m: int| 0 <= m < k && (#[trigger] nodes@[m]) is Start,
                has_end == exists|m: int| 0 <= m < k && (#[trigger] nodes@[m]) is End,
            decreases nodes.len() - k,
        {
            match &nodes[k] {
                Node::Start { .. } => {
                    has_start = true;
                },
                Node::End { .. } => {
                    has_end = true;
                },
                _ => {},
            }
            k = k + 1;
        }
        if !has_start {
            return Err(RuntimeError::MissingStartNode);
        }
        if !has_end {
            return Err(RuntimeError::MissingEndNode);
        }
        Ok(
            Interpreter {
                nodes,
                edges: flowchart.edges,
                current_node_id: "Start".to_owned(),
                env: Environment::new(),
                input_reader,
                output_writer,
                written: Ghost(Seq::empty()),
                reads: Ghost(Seq::empty()),
            },
        )
    }

    /// The index of the node the table yields for the current identifier.
    fn find_current(&self) -> (r: Option<usize>)
        ensures
            match r {
                Some(k) => k < self.nodes.len() && lookup_node(self.nodes@, self.current())
                    == Some(self.nodes@[k as int]),
                None => lookup_node(self.nodes@, self.current()) is None,
            },
    {
        let mut i = self.nodes.len();
        assert(self.nodes@.take(i as int) =~= self.nodes@);
        while i > 0
            invariant
                i <= self.nodes.len(),
                lookup_node(self.nodes@, self.current()) == lookup_node(
                    self.nodes@.take(i as int),
                    self.current(),
                ),
            decreases i,
        {
            let ghost t = self.nodes@.take(i as int);
            assert(t.drop_last() =~= self.nodes@.take(i - 1));
            assert(t.last() == self.nodes@[i - 1]);
            if same_text(self.nodes[i - 1].id(), self.current_node_id.as_str()) {
                return Some(i - 1);
            }
            i = i - 1;
        }
        None
    }

    /// Moves along the first edge out of the current node.
    fn move_to_next(&mut self) -> (r: Result<(), RuntimeError>)
        ensures
            final(self).nodes == old(self).nodes,
            final(self).edges == old(self).edges,
            final(self).env == old(self).env,
            final(self).written == old(self).written,
            final(self).reads == old(self).reads,
            match move_spec(old(self).edges@, old(self).current(), old(self).env@) {
                StepV::Moved { to, .. } => r is Ok && final(self).current() == to,
                StepV::Failed(e) => r matches Err(x) && x@ == e,
                StepV::Finished => false,
            },
            r is Ok ==> moves_along_edge(old(self).edges@, old(self).current(), final(self).current()),
    {
        let mut j: usize = 0;
        while j < self.edges.len()
            invariant
                0 <= j <= self.edges.len(),
                first_edge_from(self.edges@.take(j as int), self.current()) is None,
                self.nodes == old(self).nodes,
                self.edges == old(self).edges,
                self.env == old(self).env,
                self.written == old(self).written,
                self.reads == old(self).reads,
                self.current_node_id == old(self).current_node_id,
            decreases self.edges.len() - j,
        {
            let ghost t = self.edges@.take(j as int + 1);
            assert(t.drop_last() =~= self.edges@.take(j as int));
            if self.edges[j].from == self.current_node_id {
                proof {
                    lemma_first_prefix(self.edges@, self.current(), j as int + 1);
                }
                self.current_node_id = self.edges[j].to.clone();
                assert(self.edges@[j as int].to@ == self.current());
                return Ok(());
            }
            j = j + 1;
        }
        assert(self.edges@.take(j as int) =~= self.edges@);
        Err(RuntimeError::NoOutgoingEdge { node_id: self.current_node_id.clone() })
    }

    /// Moves along the first edge out of the current node labeled for the
    /// condition result.
    fn move_to_condition_branch(&mut self, condition_result: bool) -> (r: Result<(), RuntimeError>)
        ensures
            final(self).nodes == old(self).nodes,
            final(self).edges == old(self).edges,
            final(self).env == old(self).env,
            final(self).written == old(self).written,
            final(self).reads == old(self).reads,
            match first_branch(old(self).edges@, old(self).current(), condition_result) {
                Some(i) => r is Ok && final(self).current() == old(self).edges@[i].to@,
                None => r matches Err(x) && x@ == ErrorV::NoMatchingConditionEdge {
                    node_id: old(self).current(),
                    condition_result,
                },
            },
            r is Ok ==> moves_along_edge(old(self).edges@, old(self).current(), final(self).current()),
    {
        let mut j: usize = 0;
        while j < self.edges.len()
            invariant
                0 <= j <= self.edges.len(),
                first_branch(self.edges@.take(j as int), self.current(), condition_result) is None,
                self.nodes == old(self).nodes,
                self.edges == old(self).edges,
                self.env == old(self).env,
                self.written == old(self).written,
                self.reads == old(self).reads,
                self.current_node_id == old(self).current_node_id,
            decreases self.edges.len() - j,
        {
            let ghost t = self.edges@.take(j as int + 1);
            assert(t.drop_last() =~= self.edges@.take(j as int));
            let matches_label = match &self.edges[j].label {
                Some(EdgeLabel::Yes) => condition_result,
                Some(EdgeLabel::No) => !condition_result,
                _ => false,
            };
            if self.edges[j].from == self.current_node_id && matches_label {
                proof {
                    lemma_branch_prefix(self.edges@, self.current(), condition_result, j as int + 1);
                }
                self.current_node_id = self.edges[j].to.clone();
                assert(self.edges@[j as int].to@ == self.current());
                return Ok(());
            }
            j = j + 1;
        }
        assert(self.edges@.take(j as int) =~= self.edges@);
        Err(
            RuntimeError::NoMatchingConditionEdge {
                node_id: self.current_node_id.clone(),
                condition_result,
            },
        )
    }

    /// Performs one transition from the current node. Returns `Ok(true)`
    /// when the current node is `End`, `Ok(false)` after moving to the next
    /// node, or the error that stops the run. For a node that reads no
    /// input, the outcome is the one `step_spec` gives; the node table and
    /// the edges never change.
    pub fn step(&mut self) -> (r: Result<bool, RuntimeError>)
        ensures
            final(self).node_table() == old(self).node_table(),
            final(self).edge_list() == old(self).edge_list(),
            step_is_determined(old(self).node_table(), old(self).current()) ==> outcome_matches(
                step_spec(
                    old(self).node_table(),
                    old(self).edge_list(),
                    old(self).current(),
                    old(self).variables(),
                ),
                r,
                old(self).current(),
                old(self).variables(),
                final(self).current(),
                final(self).variables(),
            ),
            (r matches Ok(true)) ==> at_end(old(self).node_table(), old(self).current())
                && final(self).current() == old(self).current(),
            (r matches Ok(false)) ==> moves_along_edge(
                old(self).edge_list(),
                old(self).current(),
                final(self).current(),
            ),
            keeps_unassigned(
                old(self).variables(),
                final(self).variables(),
                lookup_node(old(self).node_table(), old(self).current()),
            ),
            step_is_determined(old(self).node_table(), old(self).current()) ==> final(self).output()
                == old(self).output() + step_out(
                old(self).node_table(),
                old(self).current(),
                old(self).variables(),
            ),
            !(lookup_node(old(self).node_table(), old(self).current()) matches Some(
                Node::Process { .. },
            )) ==> final(self).output() == old(self).output(),
    {
        let k = match self.find_current() {
            Some(k) => k,
            None => {
                return Err(RuntimeError::NodeNotFound { node_id: self.current_node_id.clone() });
            },
        };
        match &self.nodes[k] {
            Node::Start { .. } => match self.move_to_next() {
                Ok(()) => Ok(false),
                Err(e) => Err(e),
            },
            Node::End { .. } => Ok(true),
            Node::Process { statements, .. } => {
                let ghost env0 = self.env@;
                let mut i: usize = 0;
                assert(statements@.take(0) =~= Seq::<Statement>::empty());
                assert(self.written@ =~= old(self).written@ + block_out(statements@.take(0), env0));
                while i < statements.len()
                    invariant
                        0 <= i <= statements.len(),
                        k < self.nodes.len(),
                        self.nodes == old(self).nodes,
                        self.edges == old(self).edges,
                        self.current_node_id == old(self).current_node_id,
                        env0 == old(self).env@,
                        lookup_node(old(self).nodes@, old(self).current()) == Some(self.nodes@[k as int]),
                        self.nodes@[k as int] matches Node::Process { statements: s, .. } && s
                            == *statements,
                        forall|x: Seq<char>|
                            !assigns(statements@, x) ==> (#[trigger] self.env@.contains_key(x)
                                == env0.contains_key(x) && (env0.contains_key(x) ==> self.env@[x]
                                == env0[x])),
                        !node_reads_input(self.nodes@[k as int]) ==> run_block(
                            statements@.take(i as int),
                            env0,
                        ) == Ok::<Map<Seq<char>, ValueV>, ErrorV>(self.env@),
                        !node_reads_input(self.nodes@[k as int]) ==> self.written@ == old(
                            self,
                        ).written@ + block_out(statements@.take(i as int), env0),
                    decreases statements.len() - i,
                {
                    proof {
                        if !node_reads_input(self.nodes@[k as int]) {
                            assert(!statement_reads_input(statements@[i as int]));
                        }
                    }
                    let ghost before = self.env@;
                    proof {
                        if statements@[i as int] is Assign {
                            assert(assigns(statements@, statements@[i as int]->Assign_variable@));
                        }
                    }
                    let ghost w0 = self.written@;
                    let res = exec_logged(
                        &statements[i],
                        &mut self.env,
                        &mut self.input_reader,
                        &mut self.output_writer,
                        &mut self.reads,
                        &mut self.written,
                    );
                    proof {
                        if !node_reads_input(self.nodes@[k as int]) {
                            let t = statements@.take(i as int + 1);
                            assert(t.drop_last() =~= statements@.take(i as int));
                            assert(t.last() == statements@[i as int]);
                            assert(self.written@ =~= old(self).written@ + block_out(t, env0));
                        }
                    }
                    proof {
                        let t = statements@.take(i as int + 1);
                        assert(t.drop_last() =~= statements@.take(i as int));
                        assert(t.last() == statements@[i as int]);
                    }
                    if let Err(e) = res {
                        proof {
                            assert(self.env@ == before);
                            assert forall|x: Seq<char>|
                                !node_assigns(Some(self.nodes@[k as int]), x) implies (
                                #[trigger] self.env@.contains_key(x) == env0.contains_key(x) && (
                                env0.contains_key(x) ==> self.env@[x] == env0[x])) by {
                                assert(!assigns(statements@, x));
                                assert(before.contains_key(x) == env0.contains_key(x));
                            }
                            if !node_reads_input(self.nodes@[k as int]) {
                                assert(exec_spec(statements@[i as int], self.env@) is Err);
                                assert(run_block(statements@.take(i as int + 1), env0) is Err);
                                lemma_block_error_persists(
                                    statements@,
                                    env0,
                                    i as int + 1,
                                    statements.len() as int,
                                );
                                assert(statements@.take(statements.len() as int) =~= statements@);
                                assert(run_block(statements@, env0) == Err::<Map<Seq<char>, ValueV>, ErrorV>(e@));
                            }
                        }
                        return Err(e);
                    }
                    i = i + 1;
                }
                assert(statements@.take(statements.len() as int) =~= statements@);
                assert forall|x: Seq<char>| !node_assigns(Some(self.nodes@[k as int]), x) implies (
                    #[trigger] self.env@.contains_key(x) == env0.contains_key(x) && (env0.contains_key(
                        x,
                    ) ==> self.env@[x] == env0[x])) by {
                    assert(!assigns(statements@, x));
                }
                match self.move_to_next() {
                    Ok(()) => Ok(false),
                    Err(e) => Err(e),
                }
            },
            Node::Condition { condition, .. } => {
                let val = match eval_logged(condition, &self.env, &mut self.input_reader, &mut self.reads) {
                    Ok(v) => v,
                    Err(e) => {
                        return Err(e);
                    },
                };
                let result = match val {
                    Value::Bool(b) => b,
                    _ => {
                        return Err(
                            RuntimeError::TypeError {
                                expected: "bool",
                                actual: val.type_label(),
                                operation: "condition evaluation".to_owned(),
                            },
                        );
                    },
                };
                match self.move_to_condition_branch(result) {
                    Ok(()) => Ok(false),
                    Err(e) => Err(e),
                }
            },
        }
    }

    /// Runs at most `max_steps` transitions. Returns `Ok(true)` once `End`
    /// is reached, `Ok(false)` if the steps ran out first, or the first
    /// error. A program may loop forever; the caller chooses how long to let
    /// it run, and may call again to go on.
    pub fn run_steps(&mut self, max_steps: u64) -> (r: Result<bool, RuntimeError>)
        ensures
            final(self).node_table() == old(self).node_table(),
            final(self).edge_list() == old(self).edge_list(),
            (r matches Ok(true)) ==> at_end(final(self).node_table(), final(self).current()),
            run_determined(
                old(self).node_table(),
                old(self).edge_list(),
                old(self).current(),
                old(self).variables(),
                max_steps as nat,
            ) ==> outcome_matches(
                run_spec(
                    old(self).node_table(),
                    old(self).edge_list(),
                    old(self).current(),
                    old(self).variables(),
                    max_steps as nat,
                ),
                r,
                final(self).current(),
                final(self).variables(),
                final(self).current(),
                final(self).variables(),
            ),
            run_determined(
                old(self).node_table(),
                old(self).edge_list(),
                old(self).current(),
                old(self).variables(),
                max_steps as nat,
            ) ==> final(self).output() == old(self).output() + run_out(
                old(self).node_table(),
                old(self).edge_list(),
                old(self).current(),
                old(self).variables(),
                max_steps as nat,
            ),
    {
        let mut n: u64 = 0;
        while n < max_steps
            invariant
                n <= max_steps,
                self.node_table() == old(self).node_table(),
                self.edge_list() == old(self).edge_list(),
                run_determined(
                    old(self).node_table(),
                    old(self).edge_list(),
                    old(self).current(),
                    old(self).variables(),
                    max_steps as nat,
                ) ==> run_determined(
                    self.node_table(),
                    self.edge_list(),
                    self.current(),
                    self.variables(),
                    (max_steps - n) as nat,
                ) && run_spec(
                    old(self).node_table(),
                    old(self).edge_list(),
                    old(self).current(),
                    old(self).variables(),
                    max_steps as nat,
                ) == run_spec(
                    self.node_table(),
                    self.edge_list(),
                    self.current(),
                    self.variables(),
                    (max_steps - n) as nat,
                ) && old(self).output() + run_out(
                    old(self).node_table(),
                    old(self).edge_list(),
                    old(self).current(),
                    old(self).variables(),
                    max_steps as nat,
                ) == self.output() + run_out(
                    self.node_table(),
                    self.edge_list(),
                    self.current(),
                    self.variables(),
                    (max_steps - n) as nat,
                ),
            decreases max_steps - n,
        {
            let ghost o0 = self.output();
            let ghost nodes0 = self.node_table();
            let ghost edges0 = self.edge_list();
            let ghost cur0 = self.current();
            let ghost env0 = self.variables();
            let ghost m = (max_steps - n) as nat;
            let res = self.step();
            proof {
                if step_is_determined(nodes0, cur0) {
                    let so = step_out(nodes0, cur0, env0);
                    let rest = match step_spec(nodes0, edges0, cur0, env0) {
                        StepV::Moved { to, env: e2 } => run_out(nodes0, edges0, to, e2, (m - 1) as nat),
                        _ => Seq::empty(),
                    };
                    assert(run_out(nodes0, edges0, cur0, env0, m) == so + rest);
                    assert(o0 + (so + rest) =~= (o0 + so) + rest);
                    if res is Err || res matches Ok(true) {
                        assert(rest =~= Seq::<(Stream, Seq<char>)>::empty());
                        assert(self.output() + rest =~= self.output());
                    }
                }
            }
            match res {
                Ok(done) => {
                    if done {
                        return Ok(true);
                    }
                },
                Err(e) => {
                    return Err(e);
                },
            }
            n = n + 1;
        }
        Ok(false)
    }

    /// The output sink.
    pub fn output_writer(&self) -> (r: &W)
        ensures
            *r == self.sink(),
    {
        &self.output_writer
    }

    /// Gives back the output sink.
    pub fn into_output_writer(self) -> (r: W)
        ensures
            r == self.sink(),
    {
        self.output_writer
    }
}

proof fn lemma_first_prefix(edges: Seq<Edge>, id: Seq<char>, j: int)
    requires
        0 < j <= edges.len(),
        first_edge_from(edges.take(j - 1), id) is None,
        edges[j - 1].from@ == id,
    ensures
        first_edge_from(edges, id) == Some(j - 1),
    decreases edges.len() - j,
{
    let t = edges.take(j);
    assert(t.drop_last() =~= edges.take(j - 1));
    if j < edges.len() {
        assert(edges.take(j + 1).drop_last() =~= t);
        lemma_first_extends(edges, id, j, j - 1);
    } else {
        assert(t =~= edges);
    }
}

proof fn lemma_first_extends(edges: Seq<Edge>, id: Seq<char>, j: int, i: int)
    requires
        0 < j <= edges.len(),
        first_edge_from(edges.take(j), id) == Some(i),
    ensures
        first_edge_from(edges, id) == Some(i),
    decreases edges.len() - j,
{
    if j < edges.len() {
        assert(edges.take(j + 1).drop_last() =~= edges.take(j));
        lemma_first_extends(edges, id, j + 1, i);
    } else {
        assert(edges.take(j) =~= edges);
    }
}

proof fn lemma_branch_prefix(edges: Seq<Edge>, id: Seq<char>, b: bool, j: int)
    requires
        0 < j <= edges.len(),
        first_branch(edges.take(j - 1), id, b) is None,
        edges[j - 1].from@ == id,
        edges[j - 1].label == branch_label(b),
    ensures
        first_branch(edges, id, b) == Some(j - 1),
{
    let t = edges.take(j);
    assert(t.drop_last() =~= edges.take(j - 1));
    lemma_branch_extends(edges, id, b, j, j - 1);
}

proof fn lemma_branch_extends(edges: Seq<Edge>, id: Seq<char>, b: bool, j: int, i: int)
    requires
        0 < j <= edges.len(),
        first_branch(edges.take(j), id, b) == Some(i),
    ensures
        first_branch(edges, id, b) == Some(i),
    decreases edges.len() - j,
{
    if j < edges.len() {
        assert(edges.take(j + 1).drop_last() =~= edges.take(j));
        lemma_branch_extends(edges, id, b, j + 1, i);
    } else {
        assert(edges.take(j) =~= edges);
    }
}

} // verus!
