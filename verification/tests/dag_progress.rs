use mcloving_controller_store::controller::TerminalOutcome;
use mcloving_controller_store::dag::{DagNodeKind, DependencyCondition};
use mcloving_controller_store::dag_progress::{
    advance_blocked_nodes, cancel_dag_nodes, dag_build_outcome, descendants_of, is_retry_candidate,
    plan_dag_attempt_outcome, reopen_for_retry, skip_unstarted_nodes, terminalize_dag_node, DagAttemptStep, DagEdge,
    DagNodeState, DagNodeStatus,
};

fn node(kind: DagNodeKind, status: DagNodeStatus) -> DagNodeState {
    DagNodeState { kind, status, cancellation_requested: false }
}

fn edge(child: usize, parent: usize, condition: DependencyCondition) -> DagEdge {
    DagEdge { child, parent, condition }
}

fn statuses(nodes: &[DagNodeState]) -> Vec<DagNodeStatus> {
    nodes.iter().map(|n| n.status).collect()
}

#[test]
fn node_statuses_round_trip_through_their_names() {
    for status in [
        DagNodeStatus::Blocked,
        DagNodeStatus::Queued,
        DagNodeStatus::Offered,
        DagNodeStatus::Running,
        DagNodeStatus::Succeeded,
        DagNodeStatus::Failed,
        DagNodeStatus::Aborted,
        DagNodeStatus::Skipped,
        DagNodeStatus::ReconciliationRequired,
    ] {
        assert_eq!(DagNodeStatus::parse(status.as_str()), Some(status));
    }
    assert_eq!(DagNodeStatus::parse("reconciliation_required"), Some(DagNodeStatus::ReconciliationRequired));
    assert_eq!(DagNodeStatus::parse("done"), None);
}

#[test]
fn success_readies_dependents() {
    let nodes = vec![
        node(DagNodeKind::Work, DagNodeStatus::Succeeded),
        node(DagNodeKind::Work, DagNodeStatus::Blocked),
        node(DagNodeKind::Join, DagNodeStatus::Blocked),
    ];
    let edges = vec![
        edge(1, 0, DependencyCondition::Succeeded),
        edge(2, 0, DependencyCondition::Succeeded),
        edge(2, 1, DependencyCondition::Succeeded),
    ];
    let settled = advance_blocked_nodes(nodes, &edges);
    assert_eq!(
        statuses(&settled),
        vec![DagNodeStatus::Succeeded, DagNodeStatus::Queued, DagNodeStatus::Blocked]
    );
}

#[test]
fn failure_skips_its_required_descendants_transitively_but_not_post_nodes() {
    let nodes = vec![
        node(DagNodeKind::Work, DagNodeStatus::Failed),
        node(DagNodeKind::Work, DagNodeStatus::Blocked),
        node(DagNodeKind::Work, DagNodeStatus::Blocked),
        node(DagNodeKind::Post, DagNodeStatus::Blocked),
        node(DagNodeKind::Work, DagNodeStatus::Blocked),
    ];
    let edges = vec![
        edge(1, 0, DependencyCondition::Succeeded),
        edge(2, 1, DependencyCondition::Succeeded),
        edge(3, 0, DependencyCondition::Succeeded),
        edge(4, 2, DependencyCondition::Completed),
    ];
    let settled = advance_blocked_nodes(nodes, &edges);
    assert_eq!(
        statuses(&settled),
        vec![
            DagNodeStatus::Failed,
            DagNodeStatus::Skipped,
            DagNodeStatus::Skipped,
            DagNodeStatus::Blocked,
            DagNodeStatus::Queued,
        ]
    );
}

#[test]
fn completed_dependencies_accept_any_terminal_parent() {
    let nodes = vec![
        node(DagNodeKind::Work, DagNodeStatus::Aborted),
        node(DagNodeKind::Post, DagNodeStatus::Blocked),
        node(DagNodeKind::Work, DagNodeStatus::Running),
        node(DagNodeKind::Work, DagNodeStatus::Blocked),
    ];
    let edges = vec![
        edge(1, 0, DependencyCondition::Completed),
        edge(3, 2, DependencyCondition::Completed),
    ];
    let settled = advance_blocked_nodes(nodes, &edges);
    assert_eq!(
        statuses(&settled),
        vec![DagNodeStatus::Aborted, DagNodeStatus::Queued, DagNodeStatus::Running, DagNodeStatus::Blocked]
    );
}

#[test]
fn fail_fast_stops_held_work_and_skips_unstarted_work_except_post() {
    let nodes = vec![
        node(DagNodeKind::Work, DagNodeStatus::Running),
        node(DagNodeKind::Work, DagNodeStatus::Running),
        node(DagNodeKind::Work, DagNodeStatus::Queued),
        node(DagNodeKind::Post, DagNodeStatus::Blocked),
    ];
    let edges = vec![edge(3, 0, DependencyCondition::Completed)];
    let after = terminalize_dag_node(&nodes, &edges, 0, TerminalOutcome::Failed, true).unwrap();
    assert_eq!(
        statuses(&after),
        vec![DagNodeStatus::Failed, DagNodeStatus::Running, DagNodeStatus::Skipped, DagNodeStatus::Queued]
    );
    assert!(!after[0].cancellation_requested);
    assert!(after[1].cancellation_requested);
    let without = terminalize_dag_node(&nodes, &edges, 0, TerminalOutcome::Failed, false).unwrap();
    assert_eq!(
        statuses(&without),
        vec![DagNodeStatus::Failed, DagNodeStatus::Running, DagNodeStatus::Queued, DagNodeStatus::Queued]
    );
    assert!(!without[1].cancellation_requested);
}

#[test]
fn an_already_settled_node_is_not_terminalized_again() {
    let nodes = vec![node(DagNodeKind::Work, DagNodeStatus::Succeeded)];
    assert_eq!(terminalize_dag_node(&nodes, &Vec::new(), 0, TerminalOutcome::Failed, true), None);
}

#[test]
fn cancellation_aborts_unstarted_work_and_stops_held_work() {
    let nodes = vec![
        node(DagNodeKind::Work, DagNodeStatus::Blocked),
        node(DagNodeKind::Work, DagNodeStatus::Queued),
        node(DagNodeKind::Work, DagNodeStatus::Offered),
        node(DagNodeKind::Work, DagNodeStatus::Succeeded),
    ];
    let cancelled = cancel_dag_nodes(&nodes);
    assert_eq!(
        statuses(&cancelled),
        vec![DagNodeStatus::Aborted, DagNodeStatus::Aborted, DagNodeStatus::Offered, DagNodeStatus::Succeeded]
    );
    assert!(cancelled[2].cancellation_requested);
    assert!(!cancelled[3].cancellation_requested);
}

#[test]
fn skipping_unstarted_work_can_spare_post_nodes() {
    let nodes = vec![
        node(DagNodeKind::Work, DagNodeStatus::Queued),
        node(DagNodeKind::Post, DagNodeStatus::Blocked),
        node(DagNodeKind::Work, DagNodeStatus::Running),
    ];
    assert_eq!(
        statuses(&skip_unstarted_nodes(&nodes, true)),
        vec![DagNodeStatus::Skipped, DagNodeStatus::Blocked, DagNodeStatus::Running]
    );
    assert_eq!(
        statuses(&skip_unstarted_nodes(&nodes, false)),
        vec![DagNodeStatus::Skipped, DagNodeStatus::Skipped, DagNodeStatus::Running]
    );
}

#[test]
fn attempt_outcomes_retry_only_clean_failures_with_budget() {
    assert_eq!(
        plan_dag_attempt_outcome(false, false, false, 3, 1, TerminalOutcome::Failed, false),
        DagAttemptStep::NotDag
    );
    assert_eq!(
        plan_dag_attempt_outcome(true, false, true, 3, 1, TerminalOutcome::Failed, false),
        DagAttemptStep::Retry { ordinal: 2 }
    );
    assert_eq!(
        plan_dag_attempt_outcome(true, false, true, 3, 1, TerminalOutcome::Failed, true),
        DagAttemptStep::Terminal { fail_fast: true }
    );
    assert_eq!(
        plan_dag_attempt_outcome(true, false, true, 3, 3, TerminalOutcome::Failed, false),
        DagAttemptStep::Terminal { fail_fast: true }
    );
    assert_eq!(
        plan_dag_attempt_outcome(true, true, true, 3, 1, TerminalOutcome::Failed, false),
        DagAttemptStep::Terminal { fail_fast: true }
    );
    assert_eq!(
        plan_dag_attempt_outcome(true, false, true, 3, 1, TerminalOutcome::Succeeded, false),
        DagAttemptStep::Terminal { fail_fast: false }
    );
    assert!(is_retry_candidate(TerminalOutcome::Failed, 1, 2, false));
    assert!(!is_retry_candidate(TerminalOutcome::Aborted, 1, 2, false));
}

#[test]
fn build_outcome_follows_its_nodes() {
    let done = vec![
        node(DagNodeKind::Work, DagNodeStatus::Succeeded),
        node(DagNodeKind::Work, DagNodeStatus::Skipped),
    ];
    assert_eq!(dag_build_outcome(&done, false), "succeeded");
    assert_eq!(dag_build_outcome(&done, true), "aborted");
    let failed = vec![
        node(DagNodeKind::Work, DagNodeStatus::Failed),
        node(DagNodeKind::Work, DagNodeStatus::Aborted),
    ];
    assert_eq!(dag_build_outcome(&failed, false), "failed");
    let open = vec![
        node(DagNodeKind::Work, DagNodeStatus::Queued),
        node(DagNodeKind::Work, DagNodeStatus::Succeeded),
    ];
    assert_eq!(dag_build_outcome(&open, false), "queued");
    let mut stopping = open.clone();
    stopping[0].cancellation_requested = true;
    assert_eq!(dag_build_outcome(&stopping, false), "running");
    let reconciling = vec![
        node(DagNodeKind::Work, DagNodeStatus::Running),
        node(DagNodeKind::Work, DagNodeStatus::ReconciliationRequired),
    ];
    assert_eq!(dag_build_outcome(&reconciling, false), "reconciliation_required");
    assert_eq!(dag_build_outcome(&Vec::new(), false), "succeeded");
}

#[test]
fn descendants_follow_dependency_edges_transitively() {
    // 0 <- 1 <- 2, 0 <- 3, 4 stands apart, 2 <- 5
    let edges = vec![
        edge(1, 0, DependencyCondition::Succeeded),
        edge(2, 1, DependencyCondition::Completed),
        edge(3, 0, DependencyCondition::Succeeded),
        edge(5, 2, DependencyCondition::Succeeded),
    ];
    assert_eq!(
        descendants_of(6, &edges, 0),
        vec![false, true, true, true, false, true]
    );
    assert_eq!(
        descendants_of(6, &edges, 2),
        vec![false, false, false, false, false, true]
    );
    assert_eq!(descendants_of(6, &edges, 4), vec![false; 6]);
}

#[test]
fn a_retry_reopens_skipped_descendants_and_fail_fast_skips() {
    // node 0 failed; 1 and 2 were skipped below it; 3 was skipped by
    // fail-fast elsewhere; 4 was skipped for another reason; 5 succeeded.
    let mut nodes = vec![
        node(DagNodeKind::Work, DagNodeStatus::Failed),
        node(DagNodeKind::Work, DagNodeStatus::Skipped),
        node(DagNodeKind::Work, DagNodeStatus::Skipped),
        node(DagNodeKind::Work, DagNodeStatus::Skipped),
        node(DagNodeKind::Work, DagNodeStatus::Skipped),
        node(DagNodeKind::Post, DagNodeStatus::Succeeded),
    ];
    nodes[0].cancellation_requested = true;
    nodes[3].cancellation_requested = true;
    let edges = vec![
        edge(1, 0, DependencyCondition::Succeeded),
        edge(2, 1, DependencyCondition::Succeeded),
        edge(4, 5, DependencyCondition::Succeeded),
    ];
    let fail_fast = vec![false, false, false, true, false, false];
    let out = reopen_for_retry(&nodes, &edges, 0, &fail_fast);
    assert_eq!(
        statuses(&out),
        vec![
            DagNodeStatus::Queued,
            DagNodeStatus::Blocked,
            DagNodeStatus::Blocked,
            DagNodeStatus::Queued,
            DagNodeStatus::Skipped,
            DagNodeStatus::Succeeded,
        ]
    );
    assert!(!out[0].cancellation_requested);
    assert!(!out[3].cancellation_requested);
    assert_eq!(out[5], nodes[5]);
}

#[test]
fn a_retried_node_with_unmet_dependencies_is_blocked() {
    let nodes = vec![
        node(DagNodeKind::Work, DagNodeStatus::Running),
        node(DagNodeKind::Work, DagNodeStatus::Failed),
        node(DagNodeKind::Work, DagNodeStatus::Skipped),
    ];
    let edges = vec![
        edge(1, 0, DependencyCondition::Completed),
        edge(2, 1, DependencyCondition::Succeeded),
    ];
    let out = reopen_for_retry(&nodes, &edges, 1, &vec![false; 3]);
    assert_eq!(
        statuses(&out),
        vec![DagNodeStatus::Running, DagNodeStatus::Blocked, DagNodeStatus::Blocked]
    );
}
