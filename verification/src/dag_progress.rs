//! How the nodes of a DAG build move once one of them settles: blocked work
//! whose required parents did not succeed is skipped, blocked work whose
//! dependencies are all met is queued, and the two passes repeat until
//! nothing changes.
use vstd::prelude::*;

use crate::controller::TerminalOutcome;
use crate::dag::{DagNodeKind, DependencyCondition};
use crate::lifecycle::{dag_build_status, open_status, settled_status};
use crate::text::str_eq;

verus! {

/// Stored scheduling status of one logical DAG node.
#[derive(Clone, Copy, Debug, PartialEq, Eq, Structural)]
pub enum DagNodeStatus {
    Blocked,
    Queued,
    Offered,
    Running,
    Succeeded,
    Failed,
    Aborted,
    Skipped,
    ReconciliationRequired,
}

impl DagNodeStatus {
    pub open spec fn name(self) -> Seq<char> {
        match self {
            DagNodeStatus::Blocked => "blocked"@,
            DagNodeStatus::Queued => "queued"@,
            DagNodeStatus::Offered => "offered"@,
            DagNodeStatus::Running => "running"@,
            DagNodeStatus::Succeeded => "succeeded"@,
            DagNodeStatus::Failed => "failed"@,
            DagNodeStatus::Aborted => "aborted"@,
            DagNodeStatus::Skipped => "skipped"@,
            DagNodeStatus::ReconciliationRequired => "reconciliation_required"@,
        }
    }

    pub open spec fn from_name(s: Seq<char>) -> Option<DagNodeStatus> {
        if s == "blocked"@ {
            Some(DagNodeStatus::Blocked)
        } else if s == "queued"@ {
            Some(DagNodeStatus::Queued)
        } else if s == "offered"@ {
            Some(DagNodeStatus::Offered)
        } else if s == "running"@ {
            Some(DagNodeStatus::Running)
        } else if s == "succeeded"@ {
            Some(DagNodeStatus::Succeeded)
        } else if s == "failed"@ {
            Some(DagNodeStatus::Failed)
        } else if s == "aborted"@ {
            Some(DagNodeStatus::Aborted)
        } else if s == "skipped"@ {
            Some(DagNodeStatus::Skipped)
        } else if s == "reconciliation_required"@ {
            Some(DagNodeStatus::ReconciliationRequired)
        } else {
            None
        }
    }

    /// A node in one of these states has its logical outcome.
    pub open spec fn is_terminal(self) -> bool {
        self is Succeeded || self is Failed || self is Aborted || self is Skipped
    }

    /// Whether a node in this state has its logical outcome.
    pub fn has_outcome(self) -> (r: bool)
        ensures
            r == self.is_terminal(),
    {
        matches!(self, DagNodeStatus::Succeeded | DagNodeStatus::Failed | DagNodeStatus::Aborted | DagNodeStatus::Skipped)
    }

    /// Whether a node in this state has not started: blocked or queued.
    pub fn is_unstarted(self) -> (r: bool)
        ensures
            r == (self is Blocked || self is Queued),
    {
        matches!(self, DagNodeStatus::Blocked | DagNodeStatus::Queued)
    }

    pub fn as_str(self) -> (s: &'static str)
        ensures
            s@ == self.name(),
    {
        match self {
            DagNodeStatus::Blocked => "blocked",
            DagNodeStatus::Queued => "queued",
            DagNodeStatus::Offered => "offered",
            DagNodeStatus::Running => "running",
            DagNodeStatus::Succeeded => "succeeded",
            DagNodeStatus::Failed => "failed",
            DagNodeStatus::Aborted => "aborted",
            DagNodeStatus::Skipped => "skipped",
            DagNodeStatus::ReconciliationRequired => "reconciliation_required",
        }
    }

    pub fn parse(value: &str) -> (r: Option<DagNodeStatus>)
        ensures
            r == DagNodeStatus::from_name(value@),
    {
        if str_eq(value, "blocked") {
            Some(DagNodeStatus::Blocked)
        } else if str_eq(value, "queued") {
            Some(DagNodeStatus::Queued)
        } else if str_eq(value, "offered") {
            Some(DagNodeStatus::Offered)
        } else if str_eq(value, "running") {
            Some(DagNodeStatus::Running)
        } else if str_eq(value, "succeeded") {
            Some(DagNodeStatus::Succeeded)
        } else if str_eq(value, "failed") {
            Some(DagNodeStatus::Failed)
        } else if str_eq(value, "aborted") {
            Some(DagNodeStatus::Aborted)
        } else if str_eq(value, "skipped") {
            Some(DagNodeStatus::Skipped)
        } else if str_eq(value, "reconciliation_required") {
            Some(DagNodeStatus::ReconciliationRequired)
        } else {
            None
        }
    }
}

/// What the DAG rules read of one stored node.
#[derive(Clone, Copy, Debug, PartialEq, Eq, Structural)]
pub struct DagNodeState {
    pub kind: DagNodeKind,
    pub status: DagNodeStatus,
    pub cancellation_requested: bool,
}

/// One stored dependency, by the positions of its child and parent nodes.
#[derive(Clone, Copy, Debug, PartialEq, Eq, Structural)]
pub struct DagEdge {
    pub child: usize,
    pub parent: usize,
    pub condition: DependencyCondition,
}

pub open spec fn edges_in_range(nodes: Seq<DagNodeState>, edges: Seq<DagEdge>) -> bool {
    forall|k: int|
        0 <= k < edges.len() ==> (#[trigger] edges[k]).child < nodes.len() && edges[k].parent
            < nodes.len()
}

pub open spec fn with_status(n: DagNodeState, status: DagNodeStatus) -> DagNodeState {
    DagNodeState { kind: n.kind, status, cancellation_requested: n.cancellation_requested }
}

pub open spec fn is_blocked(n: DagNodeState) -> bool {
    n.status is Blocked
}

/// A dependency that requires success, on a parent that ended otherwise.
pub open spec fn dependency_failed(nodes: Seq<DagNodeState>, e: DagEdge) -> bool {
    let p = nodes[e.parent as int].status;
    e.condition is Succeeded && (p is Failed || p is Aborted || p is Skipped)
}

/// A dependency whose condition its parent meets.
pub open spec fn dependency_met(nodes: Seq<DagNodeState>, e: DagEdge) -> bool {
    let p = nodes[e.parent as int].status;
    match e.condition {
        DependencyCondition::Succeeded => p is Succeeded,
        DependencyCondition::Completed => p.is_terminal(),
    }
}

/// A blocked node, other than a post node, with a dependency that failed.
pub open spec fn skippable(nodes: Seq<DagNodeState>, edges: Seq<DagEdge>, i: int) -> bool {
    &&& is_blocked(nodes[i])
    &&& !(nodes[i].kind is Post)
    &&& exists|k: int|
        0 <= k < edges.len() && edges[k].child == i && #[trigger] dependency_failed(nodes, edges[k])
}

/// A blocked node all of whose dependencies are met.
pub open spec fn readiable(nodes: Seq<DagNodeState>, edges: Seq<DagEdge>, i: int) -> bool {
    &&& is_blocked(nodes[i])
    &&& forall|k: int|
        0 <= k < edges.len() && edges[k].child == i ==> #[trigger] dependency_met(nodes, edges[k])
}

/// Every skippable node becomes skipped, all at once.
pub open spec fn skip_pass(nodes: Seq<DagNodeState>, edges: Seq<DagEdge>) -> Seq<DagNodeState> {
    Seq::new(
        nodes.len(),
        |i: int|
            if skippable(nodes, edges, i) {
                with_status(nodes[i], DagNodeStatus::Skipped)
            } else {
                nodes[i]
            },
    )
}

/// Every readiable node becomes queued, all at once.
pub open spec fn ready_pass(nodes: Seq<DagNodeState>, edges: Seq<DagEdge>) -> Seq<DagNodeState> {
    Seq::new(
        nodes.len(),
        |i: int|
            if readiable(nodes, edges, i) {
                with_status(nodes[i], DagNodeStatus::Queued)
            } else {
                nodes[i]
            },
    )
}

/// One round: skip first, then ready what the skipping left.
pub open spec fn round(nodes: Seq<DagNodeState>, edges: Seq<DagEdge>) -> Seq<DagNodeState> {
    ready_pass(skip_pass(nodes, edges), edges)
}

pub open spec fn blocked_count(s: Seq<DagNodeState>) -> nat
    decreases s.len(),
{
    if s.len() == 0 {
        0
    } else {
        blocked_count(s.drop_last()) + if is_blocked(s.last()) {
            1nat
        } else {
            0nat
        }
    }
}

/// Rounds repeated until one changes nothing.
pub open spec fn settle(nodes: Seq<DagNodeState>, edges: Seq<DagEdge>) -> Seq<DagNodeState>
    decreases blocked_count(nodes),
{
    if round(nodes, edges) =~= nodes {
        nodes
    } else {
        proof {
            lemma_round_progress(nodes, edges);
        }
        settle(round(nodes, edges), edges)
    }
}

pub proof fn lemma_blocked_count_shrinks(a: Seq<DagNodeState>, b: Seq<DagNodeState>)
    requires
        a.len() == b.len(),
        forall|i: int| 0 <= i < a.len() && is_blocked(#[trigger] b[i]) ==> is_blocked(a[i]),
    ensures
        blocked_count(b) <= blocked_count(a),
        (exists|i: int| 0 <= i < a.len() && is_blocked(a[i]) && !is_blocked(#[trigger] b[i]))
            ==> blocked_count(b) < blocked_count(a),
    decreases a.len(),
{
    if a.len() > 0 {
        let a2 = a.drop_last();
        let b2 = b.drop_last();
        assert forall|i: int| 0 <= i < a2.len() && is_blocked(#[trigger] b2[i]) implies is_blocked(
            a2[i],
        ) by {
            assert(b2[i] == b[i]);
            assert(a2[i] == a[i]);
        }
        lemma_blocked_count_shrinks(a2, b2);
        if exists|i: int| 0 <= i < a.len() && is_blocked(a[i]) && !is_blocked(#[trigger] b[i]) {
            let i = choose|i: int| 0 <= i < a.len() && is_blocked(a[i]) && !is_blocked(#[trigger] b[i]);
            if i < a.len() - 1 {
                assert(a2[i] == a[i]);
                assert(b2[i] == b[i]);
            }
        }
    }
}

/// A round changes only blocked nodes, each to queued or skipped, and keeps
/// every node's kind and cancellation flag.
pub proof fn lemma_round_shape(nodes: Seq<DagNodeState>, edges: Seq<DagEdge>)
    ensures
        round(nodes, edges).len() == nodes.len(),
        forall|i: int|
            0 <= i < nodes.len() && !is_blocked(nodes[i]) ==> #[trigger] round(nodes, edges)[i]
                == nodes[i],
        forall|i: int|
            0 <= i < nodes.len() && is_blocked(nodes[i]) ==> {
                let r = #[trigger] round(nodes, edges)[i];
                &&& r.kind == nodes[i].kind
                &&& r.cancellation_requested == nodes[i].cancellation_requested
                &&& (r.status is Blocked || r.status is Queued || r.status is Skipped)
                &&& (r.status is Skipped ==> !(nodes[i].kind is Post))
            },
{
    let s = skip_pass(nodes, edges);
    assert forall|i: int| 0 <= i < nodes.len() implies #[trigger] round(nodes, edges)[i] == (if readiable(
        s,
        edges,
        i,
    ) {
        with_status(s[i], DagNodeStatus::Queued)
    } else {
        s[i]
    }) by {}
}

pub proof fn lemma_round_progress(nodes: Seq<DagNodeState>, edges: Seq<DagEdge>)
    ensures
        !(round(nodes, edges) =~= nodes) ==> blocked_count(round(nodes, edges)) < blocked_count(nodes),
{
    let r = round(nodes, edges);
    lemma_round_shape(nodes, edges);
    if !(r =~= nodes) {
        assert(exists|i: int| 0 <= i < nodes.len() && r[i] != nodes[i]);
        let i = choose|i: int| 0 <= i < nodes.len() && r[i] != nodes[i];
        assert(is_blocked(nodes[i]) && !is_blocked(r[i]));
        assert forall|j: int| 0 <= j < nodes.len() && is_blocked(#[trigger] r[j]) implies is_blocked(
            nodes[j],
        ) by {}
        lemma_blocked_count_shrinks(nodes, r);
    }
}

/// Whether a required parent of node `i` ended without success.
fn required_parent_failed(nodes: &Vec<DagNodeState>, edges: &Vec<DagEdge>, i: usize) -> (r: bool)
    requires
        edges_in_range(nodes@, edges@),
    ensures
        r == exists|k: int|
            0 <= k < edges@.len() && edges@[k].child == i && #[trigger] dependency_failed(
                nodes@,
                edges@[k],
            ),
{
    let mut k: usize = 0;
    while k < edges.len()
        invariant
            k <= edges@.len(),
            edges_in_range(nodes@, edges@),
            forall|j: int|
                0 <= j < k && edges@[j].child == i ==> !#[trigger] dependency_failed(nodes@, edges@[j]),
        decreases edges@.len() - k,
    {
        let e = edges[k];
        if e.child == i && e.condition == DependencyCondition::Succeeded {
            let s = nodes[e.parent].status;
            if s == DagNodeStatus::Failed || s == DagNodeStatus::Aborted || s == DagNodeStatus::Skipped {
                assert(dependency_failed(nodes@, edges@[k as int]));
                return true;
            }
        }
        k = k + 1;
    }
    false
}

/// Whether every dependency of node `i` is met.
fn dependencies_met(nodes: &Vec<DagNodeState>, edges: &Vec<DagEdge>, i: usize) -> (r: bool)
    requires
        edges_in_range(nodes@, edges@),
    ensures
        r == forall|k: int|
            0 <= k < edges@.len() && edges@[k].child == i ==> #[trigger] dependency_met(
                nodes@,
                edges@[k],
            ),
{
    let mut k: usize = 0;
    while k < edges.len()
        invariant
            k <= edges@.len(),
            edges_in_range(nodes@, edges@),
            forall|j: int|
                0 <= j < k && edges@[j].child == i ==> #[trigger] dependency_met(nodes@, edges@[j]),
        decreases edges@.len() - k,
    {
        let e = edges[k];
        if e.child == i {
            let s = nodes[e.parent].status;
            let met = match e.condition {
                DependencyCondition::Succeeded => s == DagNodeStatus::Succeeded,
                DependencyCondition::Completed => s == DagNodeStatus::Succeeded || s
                    == DagNodeStatus::Failed || s == DagNodeStatus::Aborted || s
                    == DagNodeStatus::Skipped,
            };
            if !met {
                assert(!dependency_met(nodes@, edges@[k as int]));
                return false;
            }
        }
        k = k + 1;
    }
    true
}

fn skip_pass_exec(nodes: &Vec<DagNodeState>, edges: &Vec<DagEdge>) -> (r: (Vec<DagNodeState>, bool))
    requires
        edges_in_range(nodes@, edges@),
    ensures
        r.0@ == skip_pass(nodes@, edges@),
        r.1 == exists|i: int| 0 <= i < nodes@.len() && #[trigger] skippable(nodes@, edges@, i),
{
    let mut out: Vec<DagNodeState> = Vec::new();
    let mut changed = false;
    let mut i: usize = 0;
    while i < nodes.len()
        invariant
            i <= nodes@.len(),
            edges_in_range(nodes@, edges@),
            out@.len() == i,
            forall|j: int| 0 <= j < i ==> out@[j] == #[trigger] skip_pass(nodes@, edges@)[j],
            changed == exists|j: int| 0 <= j < i && #[trigger] skippable(nodes@, edges@, j),
        decreases nodes@.len() - i,
    {
        let n = nodes[i];
        if n.status == DagNodeStatus::Blocked && n.kind != DagNodeKind::Post && required_parent_failed(
            nodes,
            edges,
            i,
        ) {
            assert(skippable(nodes@, edges@, i as int));
            out.push(DagNodeState { kind: n.kind, status: DagNodeStatus::Skipped, cancellation_requested: n.cancellation_requested });
            changed = true;
        } else {
            assert(!skippable(nodes@, edges@, i as int));
            out.push(n);
        }
        i = i + 1;
    }
    assert(out@ =~= skip_pass(nodes@, edges@));
    (out, changed)
}

fn ready_pass_exec(nodes: &Vec<DagNodeState>, edges: &Vec<DagEdge>) -> (r: (Vec<DagNodeState>, bool))
    requires
        edges_in_range(nodes@, edges@),
    ensures
        r.0@ == ready_pass(nodes@, edges@),
        r.1 == exists|i: int| 0 <= i < nodes@.len() && #[trigger] readiable(nodes@, edges@, i),
{
    let mut out: Vec<DagNodeState> = Vec::new();
    let mut changed = false;
    let mut i: usize = 0;
    while i < nodes.len()
        invariant
            i <= nodes@.len(),
            edges_in_range(nodes@, edges@),
            out@.len() == i,
            forall|j: int| 0 <= j < i ==> out@[j] == #[trigger] ready_pass(nodes@, edges@)[j],
            changed == exists|j: int| 0 <= j < i && #[trigger] readiable(nodes@, edges@, j),
        decreases nodes@.len() - i,
    {
        let n = nodes[i];
        if n.status == DagNodeStatus::Blocked && dependencies_met(nodes, edges, i) {
            assert(readiable(nodes@, edges@, i as int));
            out.push(DagNodeState { kind: n.kind, status: DagNodeStatus::Queued, cancellation_requested: n.cancellation_requested });
            changed = true;
        } else {
            assert(!readiable(nodes@, edges@, i as int));
            out.push(n);
        }
        i = i + 1;
    }
    assert(out@ =~= ready_pass(nodes@, edges@));
    (out, changed)
}

/// Skips and readies blocked nodes until nothing changes: the state the
/// controller leaves a DAG build in after one of its nodes settles.
pub fn advance_blocked_nodes(nodes: Vec<DagNodeState>, edges: &Vec<DagEdge>) -> (r: Vec<DagNodeState>)
    requires
        edges_in_range(nodes@, edges@),
    ensures
        r@ == settle(nodes@, edges@),
{
    let mut cur = nodes;
    loop
        invariant
            edges_in_range(cur@, edges@),
            settle(cur@, edges@) == settle(nodes@, edges@),
        decreases blocked_count(cur@),
    {
        let (skipped, any_skipped) = skip_pass_exec(&cur, edges);
        assert(edges_in_range(skipped@, edges@));
        let (readied, any_readied) = ready_pass_exec(&skipped, edges);
        proof {
            lemma_round_shape(cur@, edges@);
            lemma_round_progress(cur@, edges@);
        }
        if !any_skipped && !any_readied {
            assert(skipped@ =~= cur@);
            assert(readied@ =~= cur@);
            return cur;
        }
        proof {
            if any_skipped {
                let i = choose|i: int| 0 <= i < cur@.len() && #[trigger] skippable(cur@, edges@, i);
                assert(readied@[i] != cur@[i]);
            } else {
                assert(skipped@ =~= cur@);
                let i = choose|i: int| 0 <= i < skipped@.len() && #[trigger] readiable(skipped@, edges@, i);
                assert(readied@[i] != cur@[i]);
            }
            assert(!(readied@ =~= cur@));
        }
        cur = readied;
    }
}

/// Settling changes only blocked nodes: each ends blocked, queued or, unless
/// it is a post node, skipped, and keeps its kind and cancellation flag;
/// every other node keeps its state.
pub proof fn law_settle_moves_only_blocked_nodes(nodes: Seq<DagNodeState>, edges: Seq<DagEdge>)
    ensures
        settle(nodes, edges).len() == nodes.len(),
        forall|i: int|
            0 <= i < nodes.len() && !is_blocked(nodes[i]) ==> #[trigger] settle(nodes, edges)[i]
                == nodes[i],
        forall|i: int|
            0 <= i < nodes.len() && is_blocked(nodes[i]) ==> {
                let r = #[trigger] settle(nodes, edges)[i];
                &&& r.kind == nodes[i].kind
                &&& r.cancellation_requested == nodes[i].cancellation_requested
                &&& (r.status is Blocked || r.status is Queued || r.status is Skipped)
                &&& (r.status is Skipped ==> !(nodes[i].kind is Post))
            },
    decreases blocked_count(nodes),
{
    lemma_round_shape(nodes, edges);
    if !(round(nodes, edges) =~= nodes) {
        let r = round(nodes, edges);
        lemma_round_progress(nodes, edges);
        law_settle_moves_only_blocked_nodes(r, edges);
        assert forall|i: int| 0 <= i < nodes.len() && !is_blocked(nodes[i]) implies #[trigger] settle(
            nodes,
            edges,
        )[i] == nodes[i] by {
            assert(r[i] == nodes[i]);
        }
        assert forall|i: int| 0 <= i < nodes.len() && is_blocked(nodes[i]) implies {
            let x = #[trigger] settle(nodes, edges)[i];
            &&& x.kind == nodes[i].kind
            &&& x.cancellation_requested == nodes[i].cancellation_requested
            &&& (x.status is Blocked || x.status is Queued || x.status is Skipped)
            &&& (x.status is Skipped ==> !(nodes[i].kind is Post))
        } by {
            let ri = r[i];
            assert(settle(nodes, edges) == settle(r, edges));
            if is_blocked(ri) {
                let x = settle(r, edges)[i];
                assert(x.kind == ri.kind);
            } else {
                assert(settle(r, edges)[i] == ri);
            }
        }
    }
}

/// A settled build has nothing left to skip and nothing left to ready.
pub proof fn law_settled_build_is_stable(nodes: Seq<DagNodeState>, edges: Seq<DagEdge>)
    ensures
        forall|i: int| 0 <= i < nodes.len() ==> !#[trigger] skippable(settle(nodes, edges), edges, i),
        forall|i: int| 0 <= i < nodes.len() ==> !#[trigger] readiable(settle(nodes, edges), edges, i),
    decreases blocked_count(nodes),
{
    lemma_round_shape(nodes, edges);
    if !(round(nodes, edges) =~= nodes) {
        let r = round(nodes, edges);
        lemma_round_progress(nodes, edges);
        law_settled_build_is_stable(r, edges);
        assert(settle(nodes, edges) == settle(r, edges));
    } else {
        let s = nodes;
        assert(settle(nodes, edges) == nodes);
        let k = skip_pass(s, edges);
        assert forall|i: int| 0 <= i < s.len() implies !#[trigger] skippable(s, edges, i) by {
            if skippable(s, edges, i) {
                assert(k[i].status is Skipped);
                assert(round(s, edges)[i] == k[i]);
            }
        }
        assert(k =~= s);
        assert forall|i: int| 0 <= i < s.len() implies !#[trigger] readiable(s, edges, i) by {
            if readiable(s, edges, i) {
                assert(round(s, edges)[i].status is Queued);
            }
        }
    }
}

/// A blocked node that settling queues has every dependency met in the
/// settled build.
pub proof fn law_queued_nodes_have_met_dependencies(nodes: Seq<DagNodeState>, edges: Seq<DagEdge>, i: int)
    requires
        0 <= i < nodes.len(),
        is_blocked(nodes[i]),
        edges_in_range(nodes, edges),
        settle(nodes, edges)[i].status is Queued,
    ensures
        forall|k: int|
            0 <= k < edges.len() && edges[k].child == i ==> #[trigger] dependency_met(
                settle(nodes, edges),
                edges[k],
            ),
    decreases blocked_count(nodes),
{
    lemma_round_shape(nodes, edges);
    if round(nodes, edges) =~= nodes {
        assert(settle(nodes, edges) == nodes);
    } else {
        let r = round(nodes, edges);
        let sk = skip_pass(nodes, edges);
        lemma_round_progress(nodes, edges);
        law_settle_moves_only_blocked_nodes(r, edges);
        assert(settle(nodes, edges) == settle(r, edges));
        if is_blocked(r[i]) {
            law_queued_nodes_have_met_dependencies(r, edges, i);
        } else {
            assert(settle(r, edges)[i] == r[i]);
            assert(!skippable(nodes, edges, i));
            assert(sk[i] == nodes[i]);
            assert(readiable(sk, edges, i));
            assert forall|k: int| 0 <= k < edges.len() && edges[k].child == i implies #[trigger] dependency_met(
                settle(nodes, edges),
                edges[k],
            ) by {
                let p = edges[k].parent as int;
                assert(dependency_met(sk, edges[k]));
                assert(!is_blocked(sk[p]));
                assert(r[p] == sk[p]);
                assert(settle(r, edges)[p] == r[p]);
            }
        }
    }
}

/// A blocked node that settling skips is no post node and has a dependency
/// that requires success on a parent that, in the settled build, failed,
/// was aborted or was skipped.
pub proof fn law_skipped_nodes_have_a_failed_dependency(nodes: Seq<DagNodeState>, edges: Seq<DagEdge>, i: int)
    requires
        0 <= i < nodes.len(),
        is_blocked(nodes[i]),
        edges_in_range(nodes, edges),
        settle(nodes, edges)[i].status is Skipped,
    ensures
        !(nodes[i].kind is Post),
        exists|k: int|
            0 <= k < edges.len() && edges[k].child == i && #[trigger] dependency_failed(
                settle(nodes, edges),
                edges[k],
            ),
    decreases blocked_count(nodes),
{
    lemma_round_shape(nodes, edges);
    law_settle_moves_only_blocked_nodes(nodes, edges);
    if round(nodes, edges) =~= nodes {
        assert(settle(nodes, edges) == nodes);
    } else {
        let r = round(nodes, edges);
        let sk = skip_pass(nodes, edges);
        lemma_round_progress(nodes, edges);
        law_settle_moves_only_blocked_nodes(r, edges);
        assert(settle(nodes, edges) == settle(r, edges));
        if is_blocked(r[i]) {
            law_skipped_nodes_have_a_failed_dependency(r, edges, i);
        } else {
            assert(settle(r, edges)[i] == r[i]);
            assert(skippable(nodes, edges, i));
            let k = choose|k: int|
                0 <= k < edges.len() && edges[k].child == i && #[trigger] dependency_failed(nodes, edges[k]);
            let p = edges[k].parent as int;
            assert(!is_blocked(nodes[p]));
            assert(r[p] == nodes[p]);
            assert(settle(r, edges)[p] == r[p]);
            assert(dependency_failed(settle(nodes, edges), edges[k]));
        }
    }
}

/// Once a build settles, no node other than a post node is still blocked
/// on a dependency that requires success from a parent that failed, was
/// aborted or was skipped: such a node has been skipped.
pub proof fn law_settled_build_leaves_no_doomed_node_blocked(
    nodes: Seq<DagNodeState>,
    edges: Seq<DagEdge>,
    k: int,
)
    requires
        edges_in_range(nodes, edges),
        0 <= k < edges.len(),
        edges[k].condition is Succeeded,
    ensures
        ({
            let s = settle(nodes, edges);
            let child = s[edges[k].child as int];
            let parent = s[edges[k].parent as int].status;
            (parent is Failed || parent is Aborted || parent is Skipped) ==> !(child.status is Blocked
                && !(child.kind is Post))
        }),
{
    let s = settle(nodes, edges);
    let i = edges[k].child as int;
    law_settle_moves_only_blocked_nodes(nodes, edges);
    law_settled_build_is_stable(nodes, edges);
    assert(edges[k].child < nodes.len());
    let p = s[edges[k].parent as int].status;
    if (p is Failed || p is Aborted || p is Skipped) && s[i].status is Blocked && !(s[i].kind is Post) {
        assert(dependency_failed(s, edges[k]));
        assert(skippable(s, edges, i));
        assert(!skippable(s, edges, i));
    }
}

/// A node that settling queues has each of its dependencies satisfied in
/// the settled build: a parent it needs to succeed has succeeded, and a
/// parent it needs to complete has succeeded, failed, been aborted or been
/// skipped.
pub proof fn law_queued_nodes_wait_on_no_parent(nodes: Seq<DagNodeState>, edges: Seq<DagEdge>, i: int, k: int)
    requires
        0 <= i < nodes.len(),
        nodes[i].status is Blocked,
        edges_in_range(nodes, edges),
        settle(nodes, edges)[i].status is Queued,
        0 <= k < edges.len(),
        edges[k].child == i,
    ensures
        ({
            let p = settle(nodes, edges)[edges[k].parent as int].status;
            &&& edges[k].condition is Succeeded ==> p is Succeeded
            &&& edges[k].condition is Completed ==> (p is Succeeded || p is Failed || p is Aborted
                || p is Skipped)
        }),
{
    law_queued_nodes_have_met_dependencies(nodes, edges, i);
    assert(dependency_met(settle(nodes, edges), edges[k]));
}

/// In a settled build a node still blocked waits on some dependency its
/// parent does not yet satisfy: a parent it needs to succeed that has not
/// succeeded, or a parent it needs to complete that has not succeeded,
/// failed, been aborted or been skipped.
pub proof fn law_settled_blocked_nodes_wait_on_a_parent(nodes: Seq<DagNodeState>, edges: Seq<DagEdge>, i: int)
    requires
        edges_in_range(nodes, edges),
        0 <= i < nodes.len(),
        settle(nodes, edges)[i].status is Blocked,
    ensures
        exists|k: int|
            0 <= k < edges.len() && #[trigger] edges[k].child == i && ({
                let p = settle(nodes, edges)[edges[k].parent as int].status;
                match edges[k].condition {
                    DependencyCondition::Succeeded => !(p is Succeeded),
                    DependencyCondition::Completed => !(p is Succeeded || p is Failed || p is Aborted
                        || p is Skipped),
                }
            }),
{
    let s = settle(nodes, edges);
    law_settle_moves_only_blocked_nodes(nodes, edges);
    law_settled_build_is_stable(nodes, edges);
    assert(!readiable(s, edges, i));
    let k = choose|k: int| 0 <= k < edges.len() && edges[k].child == i && !#[trigger] dependency_met(s, edges[k]);
    assert(edges[k].child == i);
}

/// A node that has not started: blocked or queued.
pub open spec fn unstarted(n: DagNodeState) -> bool {
    n.status is Blocked || n.status is Queued
}

/// A node an agent holds: offered or running.
pub open spec fn held(n: DagNodeState) -> bool {
    n.status is Offered || n.status is Running
}

/// Every unstarted node, except post nodes when `exclude_post`, is skipped.
pub open spec fn skip_unstarted_spec(nodes: Seq<DagNodeState>, exclude_post: bool) -> Seq<DagNodeState> {
    Seq::new(
        nodes.len(),
        |i: int|
            if unstarted(nodes[i]) && (!exclude_post || !(nodes[i].kind is Post)) {
                with_status(nodes[i], DagNodeStatus::Skipped)
            } else {
                nodes[i]
            },
    )
}

/// Skips the nodes that have not started, sparing post nodes when
/// `exclude_post`.
pub fn skip_unstarted_nodes(nodes: &Vec<DagNodeState>, exclude_post: bool) -> (r: Vec<DagNodeState>)
    ensures
        r@ == skip_unstarted_spec(nodes@, exclude_post),
{
    let mut out: Vec<DagNodeState> = Vec::new();
    let mut i: usize = 0;
    while i < nodes.len()
        invariant
            i <= nodes@.len(),
            out@.len() == i,
            forall|j: int| 0 <= j < i ==> out@[j] == #[trigger] skip_unstarted_spec(nodes@, exclude_post)[j],
        decreases nodes@.len() - i,
    {
        let n = nodes[i];
        if (n.status == DagNodeStatus::Blocked || n.status == DagNodeStatus::Queued) && (!exclude_post
            || n.kind != DagNodeKind::Post) {
            out.push(DagNodeState { kind: n.kind, status: DagNodeStatus::Skipped, cancellation_requested: n.cancellation_requested });
        } else {
            out.push(n);
        }
        i = i + 1;
    }
    assert(out@ =~= skip_unstarted_spec(nodes@, exclude_post));
    out
}

/// Cancelling a DAG build aborts its unstarted nodes and asks the holders
/// of its offered or running nodes to stop.
pub open spec fn cancel_spec(nodes: Seq<DagNodeState>) -> Seq<DagNodeState> {
    Seq::new(
        nodes.len(),
        |i: int|
            if unstarted(nodes[i]) {
                with_status(nodes[i], DagNodeStatus::Aborted)
            } else if held(nodes[i]) {
                DagNodeState { kind: nodes[i].kind, status: nodes[i].status, cancellation_requested: true }
            } else {
                nodes[i]
            },
    )
}

pub fn cancel_dag_nodes(nodes: &Vec<DagNodeState>) -> (r: Vec<DagNodeState>)
    ensures
        r@ == cancel_spec(nodes@),
{
    let mut out: Vec<DagNodeState> = Vec::new();
    let mut i: usize = 0;
    while i < nodes.len()
        invariant
            i <= nodes@.len(),
            out@.len() == i,
            forall|j: int| 0 <= j < i ==> out@[j] == #[trigger] cancel_spec(nodes@)[j],
        decreases nodes@.len() - i,
    {
        let n = nodes[i];
        if n.status == DagNodeStatus::Blocked || n.status == DagNodeStatus::Queued {
            out.push(DagNodeState { kind: n.kind, status: DagNodeStatus::Aborted, cancellation_requested: n.cancellation_requested });
        } else if n.status == DagNodeStatus::Offered || n.status == DagNodeStatus::Running {
            out.push(DagNodeState { kind: n.kind, status: n.status, cancellation_requested: true });
        } else {
            out.push(n);
        }
        i = i + 1;
    }
    assert(out@ =~= cancel_spec(nodes@));
    out
}

/// The node status that a terminal attempt outcome gives.
pub open spec fn outcome_status(outcome: TerminalOutcome) -> DagNodeStatus {
    match outcome {
        TerminalOutcome::Succeeded => DagNodeStatus::Succeeded,
        TerminalOutcome::Failed => DagNodeStatus::Failed,
        TerminalOutcome::Aborted => DagNodeStatus::Aborted,
    }
}

/// What the controller does with a DAG node once one of its attempts ends.
#[derive(Clone, Copy, Debug, PartialEq, Eq, Structural)]
pub enum DagAttemptStep {
    /// The build is not a DAG build; the caller settles it directly.
    NotDag,
    /// A new attempt with this ordinal is queued for the node.
    Retry { ordinal: i32 },
    /// The node takes the attempt's outcome; `fail_fast` when the other
    /// work of the build is to be stopped.
    Terminal { fail_fast: bool },
}

/// A failed attempt may be retried: attempts remain and nobody cancelled.
pub open spec fn retry_candidate(outcome: TerminalOutcome, ordinal: i32, max_attempts: i32, cancelled: bool) -> bool {
    outcome is Failed && ordinal < max_attempts && !cancelled
}

pub open spec fn dag_attempt_step_spec(
    dag_mode: bool,
    cancelled: bool,
    fail_fast: bool,
    max_attempts: i32,
    ordinal: i32,
    outcome: TerminalOutcome,
    non_idempotent_effect: bool,
) -> DagAttemptStep {
    if !dag_mode {
        DagAttemptStep::NotDag
    } else if retry_candidate(outcome, ordinal, max_attempts, cancelled) && !non_idempotent_effect {
        DagAttemptStep::Retry { ordinal: (ordinal + 1) as i32 }
    } else {
        DagAttemptStep::Terminal { fail_fast: outcome is Failed && fail_fast }
    }
}

/// Whether a failed attempt is a retry candidate; only then does the
/// caller look for a non-idempotent effect of the attempt.
pub fn is_retry_candidate(outcome: TerminalOutcome, ordinal: i32, max_attempts: i32, cancelled: bool) -> (r: bool)
    ensures
        r == retry_candidate(outcome, ordinal, max_attempts, cancelled),
{
    outcome == TerminalOutcome::Failed && ordinal < max_attempts && !cancelled
}

/// Decides between a retry and the node's terminal outcome. A retry needs
/// a failed attempt with attempts left, no cancellation and no
/// non-idempotent effect; `non_idempotent_effect` matters only then.
pub fn plan_dag_attempt_outcome(
    dag_mode: bool,
    cancelled: bool,
    fail_fast: bool,
    max_attempts: i32,
    ordinal: i32,
    outcome: TerminalOutcome,
    non_idempotent_effect: bool,
) -> (r: DagAttemptStep)
    ensures
        r == dag_attempt_step_spec(dag_mode, cancelled, fail_fast, max_attempts, ordinal, outcome, non_idempotent_effect),
{
    if !dag_mode {
        DagAttemptStep::NotDag
    } else if is_retry_candidate(outcome, ordinal, max_attempts, cancelled) && !non_idempotent_effect {
        DagAttemptStep::Retry { ordinal: ordinal + 1 }
    } else {
        DagAttemptStep::Terminal { fail_fast: outcome == TerminalOutcome::Failed && fail_fast }
    }
}

/// A retry keeps within the attempt budget and follows only a failure.
pub proof fn law_dag_retries_follow_failures_within_budget(
    cancelled: bool,
    fail_fast: bool,
    max_attempts: i32,
    ordinal: i32,
    outcome: TerminalOutcome,
    non_idempotent_effect: bool,
)
    requires
        dag_attempt_step_spec(true, cancelled, fail_fast, max_attempts, ordinal, outcome, non_idempotent_effect) is Retry,
    ensures
        outcome is Failed,
        !cancelled,
        !non_idempotent_effect,
        dag_attempt_step_spec(true, cancelled, fail_fast, max_attempts, ordinal, outcome, non_idempotent_effect)
            == (DagAttemptStep::Retry { ordinal: (ordinal + 1) as i32 }),
        ordinal + 1 <= max_attempts,
{
}

/// The node at `index` takes the outcome, with its cancellation request
/// cleared; on a fail-fast failure every other held node is asked to stop.
pub open spec fn mark_terminal_spec(
    nodes: Seq<DagNodeState>,
    index: int,
    outcome: TerminalOutcome,
    fail_fast: bool,
) -> Seq<DagNodeState> {
    Seq::new(
        nodes.len(),
        |i: int|
            if i == index {
                DagNodeState { kind: nodes[i].kind, status: outcome_status(outcome), cancellation_requested: false }
            } else if outcome is Failed && fail_fast && held(nodes[i]) {
                DagNodeState { kind: nodes[i].kind, status: nodes[i].status, cancellation_requested: true }
            } else {
                nodes[i]
            },
    )
}

/// The build after the node at `index` takes the outcome: a fail-fast
/// failure also skips the unstarted work other than post nodes, and then
/// the blocked nodes are settled. `None` when the node already had a
/// logical outcome, in which case nothing changes.
pub open spec fn terminalize_spec(
    nodes: Seq<DagNodeState>,
    edges: Seq<DagEdge>,
    index: int,
    outcome: TerminalOutcome,
    fail_fast: bool,
) -> Option<Seq<DagNodeState>> {
    if nodes[index].status.is_terminal() {
        None
    } else {
        let marked = mark_terminal_spec(nodes, index, outcome, fail_fast);
        let swept = if outcome is Failed && fail_fast {
            skip_unstarted_spec(marked, true)
        } else {
            marked
        };
        Some(settle(swept, edges))
    }
}

pub fn terminalize_dag_node(
    nodes: &Vec<DagNodeState>,
    edges: &Vec<DagEdge>,
    index: usize,
    outcome: TerminalOutcome,
    fail_fast: bool,
) -> (r: Option<Vec<DagNodeState>>)
    requires
        index < nodes@.len(),
        edges_in_range(nodes@, edges@),
    ensures
        match r {
            Some(v) => terminalize_spec(nodes@, edges@, index as int, outcome, fail_fast) == Some(v@),
            None => terminalize_spec(nodes@, edges@, index as int, outcome, fail_fast) is None,
        },
{
    let current = nodes[index].status;
    if current == DagNodeStatus::Succeeded || current == DagNodeStatus::Failed || current
        == DagNodeStatus::Aborted || current == DagNodeStatus::Skipped {
        return None;
    }
    let status = match outcome {
        TerminalOutcome::Succeeded => DagNodeStatus::Succeeded,
        TerminalOutcome::Failed => DagNodeStatus::Failed,
        TerminalOutcome::Aborted => DagNodeStatus::Aborted,
    };
    let stop_others = outcome == TerminalOutcome::Failed && fail_fast;
    let mut marked: Vec<DagNodeState> = Vec::new();
    let mut i: usize = 0;
    while i < nodes.len()
        invariant
            i <= nodes@.len(),
            index < nodes@.len(),
            marked@.len() == i,
            stop_others == (outcome is Failed && fail_fast),
            status == outcome_status(outcome),
            forall|j: int|
                0 <= j < i ==> marked@[j] == #[trigger] mark_terminal_spec(nodes@, index as int, outcome, fail_fast)[j],
        decreases nodes@.len() - i,
    {
        let n = nodes[i];
        if i == index {
            marked.push(DagNodeState { kind: n.kind, status, cancellation_requested: false });
        } else if stop_others && (n.status == DagNodeStatus::Offered || n.status == DagNodeStatus::Running) {
            marked.push(DagNodeState { kind: n.kind, status: n.status, cancellation_requested: true });
        } else {
            marked.push(n);
        }
        i = i + 1;
    }
    assert(marked@ =~= mark_terminal_spec(nodes@, index as int, outcome, fail_fast));
    let swept = if stop_others {
        skip_unstarted_nodes(&marked, true)
    } else {
        marked
    };
    Some(advance_blocked_nodes(swept, edges))
}

/// A fail-fast failure never skips a post node: post work still runs once
/// its dependencies are met.
pub proof fn law_fail_fast_spares_post_nodes(
    nodes: Seq<DagNodeState>,
    edges: Seq<DagEdge>,
    index: int,
    outcome: TerminalOutcome,
    fail_fast: bool,
    i: int,
)
    requires
        0 <= index < nodes.len(),
        0 <= i < nodes.len(),
        i != index,
        nodes[i].kind is Post,
        !(nodes[i].status is Skipped),
        terminalize_spec(nodes, edges, index, outcome, fail_fast) is Some,
    ensures
        !(terminalize_spec(nodes, edges, index, outcome, fail_fast)->0[i].status is Skipped),
{
    let marked = mark_terminal_spec(nodes, index, outcome, fail_fast);
    let swept = if outcome is Failed && fail_fast {
        skip_unstarted_spec(marked, true)
    } else {
        marked
    };
    assert(swept[i].status == nodes[i].status);
    law_settle_moves_only_blocked_nodes(swept, edges);
}

/// Counts the nodes of a build that meet `p`.
pub open spec fn count_nodes(s: Seq<DagNodeState>, p: spec_fn(DagNodeState) -> bool) -> nat
    decreases s.len(),
{
    if s.len() == 0 {
        0
    } else {
        count_nodes(s.drop_last(), p) + if p(s.last()) {
            1nat
        } else {
            0nat
        }
    }
}

pub open spec fn pending_node(n: DagNodeState) -> bool {
    !n.status.is_terminal()
}

pub open spec fn failed_node(n: DagNodeState) -> bool {
    n.status is Failed
}

pub open spec fn aborted_node(n: DagNodeState) -> bool {
    n.status is Aborted
}

pub open spec fn reconciling_node(n: DagNodeState) -> bool {
    n.status is ReconciliationRequired
}

pub open spec fn cancelled_node(n: DagNodeState) -> bool {
    n.cancellation_requested
}

/// Whether some node was asked to stop; unknown for a build without nodes.
pub open spec fn node_cancelled(s: Seq<DagNodeState>) -> Option<bool> {
    if s.len() == 0 {
        None
    } else {
        Some(count_nodes(s, |n: DagNodeState| cancelled_node(n)) > 0)
    }
}

/// The status of a DAG build from its nodes: once none is pending, failure
/// dominates, then cancellation or abortion, else success; while some are
/// pending, reconciliation dominates, then activity or a stop request.
pub open spec fn dag_outcome_spec(s: Seq<DagNodeState>, owner_cancelled: bool) -> Seq<char> {
    if count_nodes(s, |n: DagNodeState| pending_node(n)) == 0 {
        settled_status(
            count_nodes(s, |n: DagNodeState| failed_node(n)) as i64,
            count_nodes(s, |n: DagNodeState| aborted_node(n)) as i64,
            owner_cancelled,
        )
    } else {
        open_status(
            count_nodes(s, |n: DagNodeState| reconciling_node(n)) as i64,
            count_nodes(s, |n: DagNodeState| held(n)) as i64,
            node_cancelled(s),
        )
    }
}

pub proof fn lemma_count_nodes_bounded(s: Seq<DagNodeState>, p: spec_fn(DagNodeState) -> bool)
    ensures
        count_nodes(s, p) <= s.len(),
    decreases s.len(),
{
    if s.len() > 0 {
        lemma_count_nodes_bounded(s.drop_last(), p);
    }
}

/// The status the controller records for a DAG build after its nodes move.
pub fn dag_build_outcome(nodes: &Vec<DagNodeState>, owner_cancelled: bool) -> (s: &'static str)
    requires
        nodes@.len() < i64::MAX,
    ensures
        s@ == dag_outcome_spec(nodes@, owner_cancelled),
{
    let ghost pend = |n: DagNodeState| pending_node(n);
    let ghost fail = |n: DagNodeState| failed_node(n);
    let ghost abrt = |n: DagNodeState| aborted_node(n);
    let ghost hold = |n: DagNodeState| held(n);
    let ghost reco = |n: DagNodeState| reconciling_node(n);
    let ghost canc = |n: DagNodeState| cancelled_node(n);
    let mut pending: i64 = 0;
    let mut failed: i64 = 0;
    let mut aborted: i64 = 0;
    let mut active: i64 = 0;
    let mut reconciling: i64 = 0;
    let mut cancelled: i64 = 0;
    let mut i: usize = 0;
    while i < nodes.len()
        invariant
            i <= nodes@.len(),
            nodes@.len() < i64::MAX,
            pend == (|n: DagNodeState| pending_node(n)),
            fail == (|n: DagNodeState| failed_node(n)),
            abrt == (|n: DagNodeState| aborted_node(n)),
            hold == (|n: DagNodeState| held(n)),
            reco == (|n: DagNodeState| reconciling_node(n)),
            canc == (|n: DagNodeState| cancelled_node(n)),
            pending == count_nodes(nodes@.take(i as int), pend),
            failed == count_nodes(nodes@.take(i as int), fail),
            aborted == count_nodes(nodes@.take(i as int), abrt),
            active == count_nodes(nodes@.take(i as int), hold),
            reconciling == count_nodes(nodes@.take(i as int), reco),
            cancelled == count_nodes(nodes@.take(i as int), canc),
        decreases nodes@.len() - i,
    {
        let n = nodes[i];
        let ghost before = nodes@.take(i as int);
        let ghost after = nodes@.take(i + 1);
        proof {
            assert(after.drop_last() =~= before);
            assert(after.last() == n);
            lemma_count_nodes_bounded(before, pend);
            lemma_count_nodes_bounded(before, fail);
            lemma_count_nodes_bounded(before, abrt);
            lemma_count_nodes_bounded(before, hold);
            lemma_count_nodes_bounded(before, reco);
            lemma_count_nodes_bounded(before, canc);
            assert(pend(n) == pending_node(n));
            assert(fail(n) == failed_node(n));
            assert(count_nodes(after, pend) == count_nodes(before, pend) + if pend(n) {
                1nat
            } else {
                0nat
            });
            assert(count_nodes(after, fail) == count_nodes(before, fail) + if fail(n) {
                1nat
            } else {
                0nat
            });
        }
        let terminal = n.status == DagNodeStatus::Succeeded || n.status == DagNodeStatus::Failed
            || n.status == DagNodeStatus::Aborted || n.status == DagNodeStatus::Skipped;
        if !terminal {
            pending = pending + 1;
        }
        if n.status == DagNodeStatus::Failed {
            failed = failed + 1;
        }
        if n.status == DagNodeStatus::Aborted {
            aborted = aborted + 1;
        }
        if n.status == DagNodeStatus::Offered || n.status == DagNodeStatus::Running {
            active = active + 1;
        }
        if n.status == DagNodeStatus::ReconciliationRequired {
            reconciling = reconciling + 1;
        }
        if n.cancellation_requested {
            cancelled = cancelled + 1;
        }
        i = i + 1;
    }
    assert(nodes@.take(nodes@.len() as int) =~= nodes@);
    let any_cancelled: Option<bool> = if nodes.len() == 0 {
        None
    } else {
        Some(cancelled > 0)
    };
    dag_build_status(pending, failed, aborted, active, reconciling, any_cancelled, owner_cancelled)
}

/// Some node is counted exactly when some node meets `p`.
pub proof fn lemma_count_nodes_positive(s: Seq<DagNodeState>, p: spec_fn(DagNodeState) -> bool)
    ensures
        count_nodes(s, p) > 0 <==> exists|i: int| 0 <= i < s.len() && #[trigger] p(s[i]),
    decreases s.len(),
{
    if s.len() > 0 {
        let t = s.drop_last();
        lemma_count_nodes_positive(t, p);
        if exists|i: int| 0 <= i < t.len() && #[trigger] p(t[i]) {
            let i = choose|i: int| 0 <= i < t.len() && #[trigger] p(t[i]);
            assert(s[i] == t[i]);
        }
        if exists|i: int| 0 <= i < s.len() && #[trigger] p(s[i]) {
            let i = choose|i: int| 0 <= i < s.len() && #[trigger] p(s[i]);
            if i < t.len() {
                assert(t[i] == s[i]);
            } else {
                assert(s.last() == s[i]);
            }
        }
        if p(s.last()) {
            assert(p(s[s.len() - 1]));
        }
    }
}

/// Once every node has its outcome, a DAG build failed exactly when some
/// node failed; otherwise it was aborted exactly when its owner cancelled
/// it or some node was aborted; otherwise it succeeded.
pub proof fn law_settled_build_outcome_follows_node_statuses(s: Seq<DagNodeState>, owner_cancelled: bool)
    requires
        s.len() < i64::MAX,
        forall|i: int|
            0 <= i < s.len() ==> (#[trigger] s[i]).status is Succeeded || s[i].status is Failed
                || s[i].status is Aborted || s[i].status is Skipped,
    ensures
        (exists|i: int| 0 <= i < s.len() && (#[trigger] s[i]).status is Failed) ==> dag_outcome_spec(
            s,
            owner_cancelled,
        ) == "failed"@,
        !(exists|i: int| 0 <= i < s.len() && (#[trigger] s[i]).status is Failed) && (owner_cancelled
            || exists|i: int| 0 <= i < s.len() && (#[trigger] s[i]).status is Aborted) ==> dag_outcome_spec(
            s,
            owner_cancelled,
        ) == "aborted"@,
        !owner_cancelled && (forall|i: int|
            0 <= i < s.len() ==> !((#[trigger] s[i]).status is Failed) && !(s[i].status is Aborted))
            ==> dag_outcome_spec(s, owner_cancelled) == "succeeded"@,
{
    let pend = |n: DagNodeState| pending_node(n);
    let fail = |n: DagNodeState| failed_node(n);
    let abrt = |n: DagNodeState| aborted_node(n);
    lemma_count_nodes_positive(s, pend);
    lemma_count_nodes_positive(s, fail);
    lemma_count_nodes_positive(s, abrt);
    lemma_count_nodes_bounded(s, fail);
    lemma_count_nodes_bounded(s, abrt);
    assert(!exists|i: int| 0 <= i < s.len() && #[trigger] pend(s[i]));
    assert(count_nodes(s, pend) == 0);
    if exists|i: int| 0 <= i < s.len() && (#[trigger] s[i]).status is Failed {
        let i = choose|i: int| 0 <= i < s.len() && (#[trigger] s[i]).status is Failed;
        assert(fail(s[i]));
        assert(count_nodes(s, fail) > 0);
        assert((count_nodes(s, fail) as i64) > 0);
    } else {
        assert(!exists|i: int| 0 <= i < s.len() && #[trigger] fail(s[i]));
        if exists|i: int| 0 <= i < s.len() && (#[trigger] s[i]).status is Aborted {
            let i = choose|i: int| 0 <= i < s.len() && (#[trigger] s[i]).status is Aborted;
            assert(abrt(s[i]));
        } else {
            assert(!exists|i: int| 0 <= i < s.len() && #[trigger] abrt(s[i]));
        }
    }
}

/// While some node is still pending, a DAG build needs reconciliation
/// exactly when some node does; otherwise it is running exactly when some
/// node is offered or running or some node was asked to stop; otherwise it
/// is queued. Its owner's cancellation does not matter yet.
pub proof fn law_open_build_outcome_follows_node_statuses(s: Seq<DagNodeState>, owner_cancelled: bool, j: int)
    requires
        s.len() < i64::MAX,
        0 <= j < s.len(),
        !(s[j].status is Succeeded || s[j].status is Failed || s[j].status is Aborted || s[j].status is Skipped),
    ensures
        (exists|i: int| 0 <= i < s.len() && (#[trigger] s[i]).status is ReconciliationRequired)
            ==> dag_outcome_spec(s, owner_cancelled) == "reconciliation_required"@,
        !(exists|i: int| 0 <= i < s.len() && (#[trigger] s[i]).status is ReconciliationRequired) && (
        exists|i: int|
            0 <= i < s.len() && ((#[trigger] s[i]).status is Offered || s[i].status is Running
                || s[i].cancellation_requested)) ==> dag_outcome_spec(s, owner_cancelled) == "running"@,
        (forall|i: int|
            0 <= i < s.len() ==> !((#[trigger] s[i]).status is ReconciliationRequired) && !(
            s[i].status is Offered) && !(s[i].status is Running) && !s[i].cancellation_requested)
            ==> dag_outcome_spec(s, owner_cancelled) == "queued"@,
{
    let pend = |n: DagNodeState| pending_node(n);
    let reco = |n: DagNodeState| reconciling_node(n);
    let hold = |n: DagNodeState| held(n);
    let canc = |n: DagNodeState| cancelled_node(n);
    lemma_count_nodes_positive(s, pend);
    lemma_count_nodes_positive(s, reco);
    lemma_count_nodes_positive(s, hold);
    lemma_count_nodes_positive(s, canc);
    lemma_count_nodes_bounded(s, reco);
    lemma_count_nodes_bounded(s, hold);
    assert(pend(s[j]));
    if exists|i: int| 0 <= i < s.len() && (#[trigger] s[i]).status is ReconciliationRequired {
        let i = choose|i: int| 0 <= i < s.len() && (#[trigger] s[i]).status is ReconciliationRequired;
        assert(reco(s[i]));
        assert((count_nodes(s, reco) as i64) > 0);
    } else {
        assert(!exists|i: int| 0 <= i < s.len() && #[trigger] reco(s[i]));
        if exists|i: int|
            0 <= i < s.len() && ((#[trigger] s[i]).status is Offered || s[i].status is Running
                || s[i].cancellation_requested) {
            let i = choose|i: int|
                0 <= i < s.len() && ((#[trigger] s[i]).status is Offered || s[i].status is Running
                    || s[i].cancellation_requested);
            if s[i].cancellation_requested {
                assert(canc(s[i]));
            } else {
                assert(hold(s[i]));
                assert((count_nodes(s, hold) as i64) > 0);
            }
        } else {
            assert(!exists|i: int| 0 <= i < s.len() && #[trigger] hold(s[i]));
            assert(!exists|i: int| 0 <= i < s.len() && #[trigger] canc(s[i]));
        }
    }
}

/// Whether every node of a build has its logical outcome, so that the build
/// itself is complete.
pub fn dag_build_is_settled(nodes: &Vec<DagNodeState>) -> (r: bool)
    ensures
        r == (count_nodes(nodes@, |n: DagNodeState| pending_node(n)) == 0),
{
    let ghost pend = |n: DagNodeState| pending_node(n);
    let mut i: usize = 0;
    while i < nodes.len()
        invariant
            i <= nodes@.len(),
            pend == (|n: DagNodeState| pending_node(n)),
            count_nodes(nodes@.take(i as int), pend) == 0,
        decreases nodes@.len() - i,
    {
        let n = nodes[i];
        proof {
            let t = nodes@.take(i + 1);
            assert(t.drop_last() =~= nodes@.take(i as int));
            assert(t.last() == n);
        }
        let terminal = n.status == DagNodeStatus::Succeeded || n.status == DagNodeStatus::Failed
            || n.status == DagNodeStatus::Aborted || n.status == DagNodeStatus::Skipped;
        if !terminal {
            proof {
                let t = nodes@.take(i + 1);
                assert(pend(n));
                assert(count_nodes(t, pend) > 0);
                lemma_count_prefix_monotone(nodes@, pend, i + 1);
            }
            return false;
        }
        i = i + 1;
    }
    assert(nodes@.take(nodes@.len() as int) =~= nodes@);
    true
}

/// Counting over a longer prefix never counts fewer nodes.
pub proof fn lemma_count_prefix_monotone(s: Seq<DagNodeState>, p: spec_fn(DagNodeState) -> bool, k: int)
    requires
        0 <= k <= s.len(),
    ensures
        count_nodes(s.take(k), p) <= count_nodes(s, p),
    decreases s.len() - k,
{
    if k < s.len() {
        lemma_count_prefix_monotone(s, p, k + 1);
        let t = s.take(k + 1);
        assert(t.drop_last() =~= s.take(k));
    } else {
        assert(s.take(k) =~= s);
    }
}

/// One step of marking descendants: a node becomes marked when one of its
/// parents is the root or is marked.
pub open spec fn mark_step(marks: Seq<bool>, edges: Seq<DagEdge>, root: int) -> Seq<bool> {
    Seq::new(
        marks.len(),
        |i: int|
            marks[i] || exists|k: int|
                0 <= k < edges.len() && edges[k].child == i && (edges[k].parent == root || marks[
                    edges[k].parent as int
                ]),
    )
}

pub open spec fn unmarked_count(marks: Seq<bool>) -> nat
    decreases marks.len(),
{
    if marks.len() == 0 {
        0
    } else {
        unmarked_count(marks.drop_last()) + if marks.last() {
            0nat
        } else {
            1nat
        }
    }
}

pub proof fn lemma_unmarked_count_shrinks(a: Seq<bool>, b: Seq<bool>)
    requires
        a.len() == b.len(),
        forall|i: int| 0 <= i < a.len() && a[i] ==> #[trigger] b[i],
    ensures
        unmarked_count(b) <= unmarked_count(a),
        (exists|i: int| 0 <= i < a.len() && !a[i] && #[trigger] b[i]) ==> unmarked_count(b) < unmarked_count(a),
    decreases a.len(),
{
    if a.len() > 0 {
        let a2 = a.drop_last();
        let b2 = b.drop_last();
        assert forall|i: int| 0 <= i < a2.len() && a2[i] implies #[trigger] b2[i] by {
            assert(a2[i] == a[i]);
            assert(b2[i] == b[i]);
        }
        lemma_unmarked_count_shrinks(a2, b2);
        if exists|i: int| 0 <= i < a.len() && !a[i] && #[trigger] b[i] {
            let i = choose|i: int| 0 <= i < a.len() && !a[i] && #[trigger] b[i];
            if i < a.len() - 1 {
                assert(a2[i] == a[i]);
                assert(b2[i] == b[i]);
            }
        }
    }
}

pub proof fn lemma_mark_step_progress(marks: Seq<bool>, edges: Seq<DagEdge>, root: int)
    ensures
        mark_step(marks, edges, root).len() == marks.len(),
        !(mark_step(marks, edges, root) =~= marks) ==> unmarked_count(mark_step(marks, edges, root))
            < unmarked_count(marks),
{
    let next = mark_step(marks, edges, root);
    if !(next =~= marks) {
        let i = choose|i: int| 0 <= i < marks.len() && next[i] != marks[i];
        assert(!marks[i] && next[i]);
        assert forall|j: int| 0 <= j < marks.len() && marks[j] implies #[trigger] next[j] by {}
        lemma_unmarked_count_shrinks(marks, next);
    }
}

/// The nodes reachable from `root` along dependency edges, as marks: the
/// least set that holds every child of the root or of a marked node.
pub open spec fn mark_closure(marks: Seq<bool>, edges: Seq<DagEdge>, root: int) -> Seq<bool>
    decreases unmarked_count(marks),
{
    if mark_step(marks, edges, root) =~= marks {
        marks
    } else {
        proof {
            lemma_mark_step_progress(marks, edges, root);
        }
        mark_closure(mark_step(marks, edges, root), edges, root)
    }
}

pub open spec fn descendants(node_count: nat, edges: Seq<DagEdge>, root: int) -> Seq<bool> {
    mark_closure(Seq::new(node_count, |i: int| false), edges, root)
}

fn mark_step_exec(marks: &Vec<bool>, edges: &Vec<DagEdge>, root: usize) -> (r: (Vec<bool>, bool))
    requires
        forall|k: int| 0 <= k < edges@.len() ==> (#[trigger] edges@[k]).parent < marks@.len(),
    ensures
        r.0@ == mark_step(marks@, edges@, root as int),
        r.1 == !(r.0@ =~= marks@),
{
    let mut out: Vec<bool> = Vec::new();
    let mut changed = false;
    let mut i: usize = 0;
    while i < marks.len()
        invariant
            i <= marks@.len(),
            forall|k: int| 0 <= k < edges@.len() ==> (#[trigger] edges@[k]).parent < marks@.len(),
            out@.len() == i,
            forall|j: int| 0 <= j < i ==> out@[j] == #[trigger] mark_step(marks@, edges@, root as int)[j],
            changed == exists|j: int| 0 <= j < i && out@[j] != marks@[j],
        decreases marks@.len() - i,
    {
        let mut reached = marks[i];
        if !reached {
            let mut k: usize = 0;
            while k < edges.len()
                invariant
                    k <= edges@.len(),
                    i < marks@.len(),
                    !marks@[i as int],
                    forall|q: int| 0 <= q < edges@.len() ==> (#[trigger] edges@[q]).parent < marks@.len(),
                    reached == exists|q: int|
                        0 <= q < k && edges@[q].child == i && (edges@[q].parent == root || marks@[
                            edges@[q].parent as int
                        ]),
                decreases edges@.len() - k,
            {
                let e = edges[k];
                if e.child == i && (e.parent == root || marks[e.parent]) {
                    reached = true;
                }
                k = k + 1;
            }
        }
        if reached != marks[i] {
            changed = true;
        }
        out.push(reached);
        i = i + 1;
    }
    proof {
        assert(out@ =~= mark_step(marks@, edges@, root as int));
        if !changed {
            assert(out@ =~= marks@);
        } else {
            let j = choose|j: int| 0 <= j < marks@.len() && out@[j] != marks@[j];
            assert(out@[j] != marks@[j]);
        }
    }
    (out, changed)
}

/// Marks every node reachable from `root` along dependency edges.
pub fn descendants_of(node_count: usize, edges: &Vec<DagEdge>, root: usize) -> (r: Vec<bool>)
    requires
        forall|k: int| 0 <= k < edges@.len() ==> (#[trigger] edges@[k]).parent < node_count,
    ensures
        r@ == descendants(node_count as nat, edges@, root as int),
{
    let mut marks: Vec<bool> = Vec::new();
    let mut i: usize = 0;
    while i < node_count
        invariant
            i <= node_count,
            marks@.len() == i,
            forall|j: int| 0 <= j < i ==> !marks@[j],
        decreases node_count - i,
    {
        marks.push(false);
        i = i + 1;
    }
    assert(marks@ =~= Seq::new(node_count as nat, |i: int| false));
    let ghost start = marks@;
    loop
        invariant
            marks@.len() == node_count,
            forall|k: int| 0 <= k < edges@.len() ==> (#[trigger] edges@[k]).parent < node_count,
            mark_closure(marks@, edges@, root as int) == mark_closure(start, edges@, root as int),
            start == Seq::new(node_count as nat, |i: int| false),
        decreases unmarked_count(marks@),
    {
        let (next, changed) = mark_step_exec(&marks, edges, root);
        proof {
            lemma_mark_step_progress(marks@, edges@, root as int);
        }
        if !changed {
            return marks;
        }
        marks = next;
    }
}

} // verus!

verus! {

pub proof fn lemma_mark_closure_shape(marks: Seq<bool>, edges: Seq<DagEdge>, root: int)
    ensures
        mark_closure(marks, edges, root).len() == marks.len(),
        forall|i: int| 0 <= i < marks.len() && marks[i] ==> #[trigger] mark_closure(marks, edges, root)[i],
        mark_step(mark_closure(marks, edges, root), edges, root) =~= mark_closure(marks, edges, root),
    decreases unmarked_count(marks),
{
    let next = mark_step(marks, edges, root);
    if !(next =~= marks) {
        lemma_mark_step_progress(marks, edges, root);
        lemma_mark_closure_shape(next, edges, root);
        assert forall|i: int| 0 <= i < marks.len() && marks[i] implies #[trigger] mark_closure(
            marks,
            edges,
            root,
        )[i] by {
            assert(next[i]);
        }
    }
}

/// Reachability is closed: a child of the root, or of a node reachable from
/// the root, is itself reachable from the root.
pub proof fn law_descendants_are_closed_under_dependency(
    node_count: nat,
    edges: Seq<DagEdge>,
    root: int,
    k: int,
)
    requires
        0 <= k < edges.len(),
        edges[k].child < node_count,
        edges[k].parent < node_count,
        edges[k].parent == root || descendants(node_count, edges, root)[edges[k].parent as int],
    ensures
        descendants(node_count, edges, root)[edges[k].child as int],
{
    let start = Seq::new(node_count, |i: int| false);
    lemma_mark_closure_shape(start, edges, root);
    let d = descendants(node_count, edges, root);
    let c = edges[k].child as int;
    assert(mark_step(d, edges, root)[c] == d[c]);
}

/// Whether node `i` has any dependency at all.
pub open spec fn has_dependency(edges: Seq<DagEdge>, i: int) -> bool {
    exists|k: int| 0 <= k < edges.len() && #[trigger] edges[k].child == i
}

/// Whether every dependency of node `i` is met.
pub open spec fn all_dependencies_met(nodes: Seq<DagNodeState>, edges: Seq<DagEdge>, i: int) -> bool {
    forall|k: int|
        0 <= k < edges.len() && edges[k].child == i ==> #[trigger] dependency_met(nodes, edges[k])
}

pub open spec fn reopened(n: DagNodeState, status: DagNodeStatus) -> DagNodeState {
    DagNodeState { kind: n.kind, status, cancellation_requested: false }
}

/// The nodes after a retry of node `retried` is admitted: the retried node
/// is queued when its dependencies are met and blocked otherwise; a skipped
/// node that depends, directly or not, on the retried node, or that was
/// skipped by fail-fast, is blocked again when it has dependencies and
/// queued when it has none. Reopened nodes lose any cancellation request.
pub open spec fn reopen_spec(
    nodes: Seq<DagNodeState>,
    edges: Seq<DagEdge>,
    retried: int,
    fail_fast_skipped: Seq<bool>,
) -> Seq<DagNodeState> {
    let below = descendants(nodes.len(), edges, retried);
    Seq::new(
        nodes.len(),
        |i: int|
            if i == retried {
                reopened(
                    nodes[i],
                    if all_dependencies_met(nodes, edges, i) {
                        DagNodeStatus::Queued
                    } else {
                        DagNodeStatus::Blocked
                    },
                )
            } else if nodes[i].status is Skipped && (below[i] || fail_fast_skipped[i]) {
                reopened(
                    nodes[i],
                    if has_dependency(edges, i) {
                        DagNodeStatus::Blocked
                    } else {
                        DagNodeStatus::Queued
                    },
                )
            } else {
                nodes[i]
            },
    )
}

fn has_dependency_exec(edges: &Vec<DagEdge>, i: usize) -> (r: bool)
    ensures
        r == has_dependency(edges@, i as int),
{
    let mut k: usize = 0;
    while k < edges.len()
        invariant
            k <= edges@.len(),
            forall|q: int| 0 <= q < k ==> #[trigger] edges@[q].child != i,
        decreases edges@.len() - k,
    {
        if edges[k].child == i {
            assert(edges@[k as int].child == i);
            return true;
        }
        k = k + 1;
    }
    false
}

/// Reopens the DAG after a retry of node `retried` is admitted, as
/// `reopen_spec` describes; `fail_fast_skipped[i]` tells whether node `i`'s
/// latest attempt was aborted by fail-fast.
pub fn reopen_for_retry(
    nodes: &Vec<DagNodeState>,
    edges: &Vec<DagEdge>,
    retried: usize,
    fail_fast_skipped: &Vec<bool>,
) -> (r: Vec<DagNodeState>)
    requires
        retried < nodes@.len(),
        fail_fast_skipped@.len() == nodes@.len(),
        edges_in_range(nodes@, edges@),
    ensures
        r@ == reopen_spec(nodes@, edges@, retried as int, fail_fast_skipped@),
{
    let below = descendants_of(nodes.len(), edges, retried);
    proof {
        lemma_mark_closure_shape(Seq::new(nodes@.len(), |i: int| false), edges@, retried as int);
    }
    let mut out: Vec<DagNodeState> = Vec::new();
    let mut i: usize = 0;
    while i < nodes.len()
        invariant
            i <= nodes@.len(),
            retried < nodes@.len(),
            fail_fast_skipped@.len() == nodes@.len(),
            edges_in_range(nodes@, edges@),
            below@ == descendants(nodes@.len(), edges@, retried as int),
            below@.len() == nodes@.len(),
            out@.len() == i,
            forall|j: int|
                0 <= j < i ==> out@[j] == #[trigger] reopen_spec(
                    nodes@,
                    edges@,
                    retried as int,
                    fail_fast_skipped@,
                )[j],
        decreases nodes@.len() - i,
    {
        let n = nodes[i];
        let next = if i == retried {
            let status = if dependencies_met(nodes, edges, i) {
                DagNodeStatus::Queued
            } else {
                DagNodeStatus::Blocked
            };
            DagNodeState { kind: n.kind, status, cancellation_requested: false }
        } else if matches!(n.status, DagNodeStatus::Skipped) && (below[i] || fail_fast_skipped[i]) {
            let status = if has_dependency_exec(edges, i) {
                DagNodeStatus::Blocked
            } else {
                DagNodeStatus::Queued
            };
            DagNodeState { kind: n.kind, status, cancellation_requested: false }
        } else {
            n
        };
        out.push(next);
        i = i + 1;
    }
    proof {
        assert(out@ =~= reopen_spec(nodes@, edges@, retried as int, fail_fast_skipped@));
    }
    out
}

/// A retry leaves no node skipped that depends, directly or not, on the
/// retried node, and touches no node that was neither the retried node nor
/// skipped.
pub proof fn law_retry_reopens_skipped_descendants(
    nodes: Seq<DagNodeState>,
    edges: Seq<DagEdge>,
    retried: int,
    fail_fast_skipped: Seq<bool>,
    i: int,
)
    requires
        0 <= retried < nodes.len(),
        0 <= i < nodes.len(),
        fail_fast_skipped.len() == nodes.len(),
    ensures
        descendants(nodes.len(), edges, retried)[i] ==> !(reopen_spec(
            nodes,
            edges,
            retried,
            fail_fast_skipped,
        )[i].status is Skipped),
        i != retried && !(nodes[i].status is Skipped) ==> reopen_spec(
            nodes,
            edges,
            retried,
            fail_fast_skipped,
        )[i] == nodes[i],
        !(reopen_spec(nodes, edges, retried, fail_fast_skipped)[retried].status.is_terminal()),
{
}

} // verus!
