use mcloving_controller_store::controller::{AgentCancellationDisposition, AgentCancellationOutcome};
use mcloving_controller_store::lifecycle::{
    aborted_attempt_disposition, attempt_is_retryable, dag_build_status, plan_agent_cancellation,
    plan_retry, retry_precheck, retry_request_is_eligible, CancellationStep, RetryDecision, RetryPlan,
};

#[test]
fn settled_builds_prefer_failure_then_abort() {
    assert_eq!(dag_build_status(0, 1, 1, 0, 0, None, true), "failed");
    assert_eq!(dag_build_status(0, 0, 0, 0, 0, None, true), "aborted");
    assert_eq!(dag_build_status(0, 0, 2, 0, 0, None, false), "aborted");
    assert_eq!(dag_build_status(0, 0, 0, 0, 0, None, false), "succeeded");
}

#[test]
fn open_builds_report_reconciliation_then_activity() {
    assert_eq!(dag_build_status(3, 0, 0, 1, 1, None, false), "reconciliation_required");
    assert_eq!(dag_build_status(3, 0, 0, 1, 0, None, false), "running");
    assert_eq!(dag_build_status(3, 0, 0, 0, 0, Some(true), false), "running");
    assert_eq!(dag_build_status(3, 0, 0, 0, 0, Some(false), false), "queued");
}

#[test]
fn retries_are_bounded() {
    assert!(retry_request_is_eligible(3, "flaky"));
    assert!(!retry_request_is_eligible(0, "flaky"));
    assert!(!retry_request_is_eligible(17, "flaky"));
    assert!(!retry_request_is_eligible(3, ""));
    assert!(!retry_request_is_eligible(3, &"x".repeat(1025)));
    assert!(attempt_is_retryable("failed", false, false));
    assert!(attempt_is_retryable("reconciliation_required", false, false));
    assert!(!attempt_is_retryable("failed", true, false));
    assert!(!attempt_is_retryable("succeeded", false, false));
    assert_eq!(plan_retry(1, 3, false), RetryPlan::Schedule { ordinal: 2 });
    assert_eq!(plan_retry(3, 3, false), RetryPlan::DeadLetter { record: true });
    assert_eq!(plan_retry(1, 3, true), RetryPlan::DeadLetter { record: false });
}

#[test]
fn cancellation_reports_follow_their_outcome() {
    assert_eq!(
        plan_agent_cancellation("running", true, AgentCancellationOutcome::Terminated, 0),
        CancellationStep::Abort {
            reason: "agent_confirmed_cancellation",
            event_kind: "attempt.cancellation_completed",
            disposition: AgentCancellationDisposition::Completed,
        }
    );
    assert_eq!(
        plan_agent_cancellation("running", false, AgentCancellationOutcome::AlreadyExited, 0),
        CancellationStep::Abort {
            reason: "agent_recovery_process_already_exited",
            event_kind: "attempt.recovery_process_already_exited",
            disposition: AgentCancellationDisposition::Completed,
        }
    );
    assert_eq!(
        plan_agent_cancellation("cancelling", true, AgentCancellationOutcome::IdentityMismatch, 0),
        CancellationStep::Abort {
            reason: "agent_process_identity_mismatch",
            event_kind: "attempt.cancellation_stale_process",
            disposition: AgentCancellationDisposition::RetireStale,
        }
    );
    assert_eq!(
        plan_agent_cancellation("running", true, AgentCancellationOutcome::Terminated, 2),
        CancellationStep::RequireReconciliation
    );
    assert_eq!(
        plan_agent_cancellation("finalizing", false, AgentCancellationOutcome::Terminated, 0),
        CancellationStep::RetireStale
    );
    assert_eq!(
        aborted_attempt_disposition(Some("agent_recovery_stale_process")),
        AgentCancellationDisposition::RetireStale
    );
    assert_eq!(aborted_attempt_disposition(Some("operator")), AgentCancellationDisposition::Completed);
    assert_eq!(aborted_attempt_disposition(None), AgentCancellationDisposition::Completed);
}

#[test]
fn an_existing_retry_is_answered_before_any_other_check() {
    assert_eq!(
        retry_precheck(Some((9, 3)), true, true),
        Some(RetryDecision::Scheduled { attempt_id: 9, ordinal: 3, created: false })
    );
    assert_eq!(retry_precheck(None, true, false), Some(RetryDecision::Ineligible));
    assert_eq!(retry_precheck(None, false, true), Some(RetryDecision::Ineligible));
    assert_eq!(retry_precheck(None, false, false), None);
}
