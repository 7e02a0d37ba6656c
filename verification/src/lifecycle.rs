//! Decisions the controller takes on builds and attempts once it has read
//! their stored state: a DAG build's aggregate status, whether a failed
//! attempt is retried or dead-lettered, and what an agent's cancellation
//! report does to its attempt.
use vstd::prelude::*;

use crate::controller::{AgentCancellationDisposition, AgentCancellationOutcome};
use crate::text::{chars_of, str_eq, utf8_len};

verus! {

/// Status of a DAG build none of whose nodes is still pending: failure
/// dominates, then cancellation or abortion, else success.
pub open spec fn settled_status(failed: i64, aborted: i64, owner_cancelled: bool) -> Seq<char> {
    if failed > 0 {
        "failed"@
    } else if owner_cancelled || aborted > 0 {
        "aborted"@
    } else {
        "succeeded"@
    }
}

/// Status of a DAG build with pending nodes.
pub open spec fn open_status(reconciliation_required: i64, active: i64, node_cancelled: Option<bool>) -> Seq<char> {
    if reconciliation_required > 0 {
        "reconciliation_required"@
    } else if active > 0 || node_cancelled == Some(true) {
        "running"@
    } else {
        "queued"@
    }
}

/// The status a DAG build takes from its nodes' counts; whether its owner
/// asked to cancel matters only once no node is pending.
pub fn dag_build_status(
    pending: i64,
    failed: i64,
    aborted: i64,
    active: i64,
    reconciliation_required: i64,
    node_cancelled: Option<bool>,
    owner_cancelled: bool,
) -> (s: &'static str)
    ensures
        pending == 0 ==> s@ == settled_status(failed, aborted, owner_cancelled),
        pending != 0 ==> s@ == open_status(reconciliation_required, active, node_cancelled),
{
    if pending == 0 {
        if failed > 0 {
            "failed"
        } else if owner_cancelled || aborted > 0 {
            "aborted"
        } else {
            "succeeded"
        }
    } else if reconciliation_required > 0 {
        "reconciliation_required"
    } else if active > 0 || node_cancelled == Some(true) {
        "running"
    } else {
        "queued"
    }
}

/// A settled build with a failed node is failed, whatever else happened.
pub proof fn law_failure_dominates_settled_builds(failed: i64, aborted: i64, owner_cancelled: bool)
    requires
        failed > 0,
    ensures
        settled_status(failed, aborted, owner_cancelled) == "failed"@,
{
}

/// A settled build succeeds only when nothing failed, nothing aborted and
/// its owner did not cancel it.
pub proof fn law_settled_success_needs_clean_nodes(failed: i64, aborted: i64, owner_cancelled: bool)
    requires
        settled_status(failed, aborted, owner_cancelled) == "succeeded"@,
    ensures
        failed <= 0,
        aborted <= 0,
        !owner_cancelled,
{
    reveal_strlit("failed");
    reveal_strlit("aborted");
    reveal_strlit("succeeded");
    assert("failed"@.len() == 6);
    assert("aborted"@.len() == 7);
    assert("succeeded"@.len() == 9);
}

/// A retry request is considered at all: between one and sixteen attempts
/// in total, with a non-empty reason of at most 1024 bytes.
pub open spec fn retry_request_ok(max_attempts: i32, reason: Seq<char>) -> bool {
    1 <= max_attempts <= 16 && reason.len() > 0 && crate::text::byte_len(reason) <= 1024
}

pub fn retry_request_is_eligible(max_attempts: i32, reason: &str) -> (r: bool)
    ensures
        r == retry_request_ok(max_attempts, reason@),
{
    let nonempty = chars_of(reason).len() > 0;
    1 <= max_attempts && max_attempts <= 16 && nonempty && utf8_len(reason) <= 1024
}

/// A stored attempt may be retried: its build was not cancelled, its
/// reconciliation was not terminalized, and it failed or awaits
/// reconciliation.
pub open spec fn attempt_retryable(status: Seq<char>, cancelled: bool, reconciliation_terminalized: bool) -> bool {
    !cancelled && !reconciliation_terminalized && (status == "failed"@ || status == "reconciliation_required"@)
}

pub fn attempt_is_retryable(status: &str, cancelled: bool, reconciliation_terminalized: bool) -> (r: bool)
    ensures
        r == attempt_retryable(status@, cancelled, reconciliation_terminalized),
{
    !cancelled && !reconciliation_terminalized && (str_eq(status, "failed") || str_eq(
        status,
        "reconciliation_required",
    ))
}

/// Result of a durable retry decision.
#[derive(Clone, Copy, Debug, PartialEq, Eq, Structural)]
pub enum RetryDecision {
    Scheduled { attempt_id: u128, ordinal: i32, created: bool },
    DeadLettered,
    Ineligible,
}

/// What a retry request answers before a new attempt is planned: the retry
/// that already exists, or ineligibility when the pipeline refuses or the
/// attempt recorded a non-idempotent effect; `None` lets planning go on.
pub open spec fn retry_precheck_spec(
    existing_child: Option<(u128, i32)>,
    pipeline_refused: bool,
    non_idempotent_effect: bool,
) -> Option<RetryDecision> {
    match existing_child {
        Some((child, ordinal)) => Some(RetryDecision::Scheduled { attempt_id: child, ordinal, created: false }),
        None => if pipeline_refused || non_idempotent_effect {
            Some(RetryDecision::Ineligible)
        } else {
            None
        },
    }
}

pub fn retry_precheck(
    existing_child: Option<(u128, i32)>,
    pipeline_refused: bool,
    non_idempotent_effect: bool,
) -> (r: Option<RetryDecision>)
    ensures
        r == retry_precheck_spec(existing_child, pipeline_refused, non_idempotent_effect),
{
    match existing_child {
        Some((child, ordinal)) => Some(RetryDecision::Scheduled { attempt_id: child, ordinal, created: false }),
        None => if pipeline_refused || non_idempotent_effect {
            Some(RetryDecision::Ineligible)
        } else {
            None
        },
    }
}

/// What becomes of a retryable attempt once no retry exists yet, its
/// pipeline is enabled and no effect forbids a retry.
#[derive(Clone, Copy, Debug, PartialEq, Eq, Structural)]
pub enum RetryPlan {
    /// The attempt is dead-lettered; `record` when no dead letter exists yet.
    DeadLetter { record: bool },
    /// A new attempt with this ordinal is scheduled.
    Schedule { ordinal: i32 },
}

pub open spec fn retry_plan_spec(ordinal: i32, max_attempts: i32, has_dead_letter: bool) -> RetryPlan {
    if has_dead_letter {
        RetryPlan::DeadLetter { record: false }
    } else if ordinal >= max_attempts {
        RetryPlan::DeadLetter { record: true }
    } else {
        RetryPlan::Schedule { ordinal: (ordinal + 1) as i32 }
    }
}

/// Dead-letters an attempt that already has a dead letter or has used its
/// attempts; otherwise schedules the next ordinal.
pub fn plan_retry(ordinal: i32, max_attempts: i32, has_dead_letter: bool) -> (r: RetryPlan)
    ensures
        r == retry_plan_spec(ordinal, max_attempts, has_dead_letter),
{
    if has_dead_letter {
        RetryPlan::DeadLetter { record: false }
    } else if ordinal >= max_attempts {
        RetryPlan::DeadLetter { record: true }
    } else {
        RetryPlan::Schedule { ordinal: ordinal + 1 }
    }
}

/// Retries never exceed the attempt budget: a scheduled ordinal is at most
/// the maximum and one more than the failed attempt's.
pub proof fn law_retries_stay_within_budget(ordinal: i32, max_attempts: i32, has_dead_letter: bool)
    requires
        retry_plan_spec(ordinal, max_attempts, has_dead_letter) is Schedule,
    ensures
        retry_plan_spec(ordinal, max_attempts, has_dead_letter) == (RetryPlan::Schedule {
            ordinal: (ordinal + 1) as i32,
        }),
        ordinal + 1 <= max_attempts,
        !has_dead_letter,
{
}

/// The stored reason of an aborted attempt that marks a stale process.
pub open spec fn stale_abort_reason(reason: Option<Seq<char>>) -> bool {
    reason == Some("agent_process_identity_mismatch"@) || reason == Some("agent_recovery_stale_process"@)
}

/// A cancellation report for an attempt that is already aborted: the
/// agent retires when the abort marked its process stale.
pub fn aborted_attempt_disposition(reason: Option<&str>) -> (d: AgentCancellationDisposition)
    ensures
        d == (if stale_abort_reason(
            match reason {
                Some(s) => Some(s@),
                None => None,
            },
        ) {
            AgentCancellationDisposition::RetireStale
        } else {
            AgentCancellationDisposition::Completed
        }),
{
    match reason {
        Some(s) => if str_eq(s, "agent_process_identity_mismatch") || str_eq(s, "agent_recovery_stale_process") {
            AgentCancellationDisposition::RetireStale
        } else {
            AgentCancellationDisposition::Completed
        },
        None => AgentCancellationDisposition::Completed,
    }
}

/// What an agent's cancellation report does to a live attempt.
#[derive(Clone, Copy, Debug, PartialEq, Eq)]
pub enum CancellationStep {
    /// The attempt, its node and build wait for reconciliation.
    RequireReconciliation,
    /// The report changes nothing; the agent's process is stale.
    RetireStale,
    /// The attempt is aborted with this reason and event.
    Abort { reason: &'static str, event_kind: &'static str, disposition: AgentCancellationDisposition },
}

/// The report interrupted a recovery rather than an owner's cancellation.
pub open spec fn recovery_cancellation(status: Seq<char>, owner_cancelled: bool) -> bool {
    !owner_cancelled && (status == "accepted"@ || status == "running"@ || status == "cancelling"@)
}

pub open spec fn abort_reason(outcome: AgentCancellationOutcome, recovery: bool) -> Seq<char> {
    match outcome {
        AgentCancellationOutcome::Terminated => if recovery {
            "agent_recovery_terminated"@
        } else {
            "agent_confirmed_cancellation"@
        },
        AgentCancellationOutcome::AlreadyExited => if recovery {
            "agent_recovery_process_already_exited"@
        } else {
            "agent_process_already_exited"@
        },
        _ => if recovery {
            "agent_recovery_stale_process"@
        } else {
            "agent_process_identity_mismatch"@
        },
    }
}

pub open spec fn abort_event(outcome: AgentCancellationOutcome, recovery: bool) -> Seq<char> {
    match outcome {
        AgentCancellationOutcome::Terminated => if recovery {
            "attempt.recovery_terminated"@
        } else {
            "attempt.cancellation_completed"@
        },
        AgentCancellationOutcome::AlreadyExited => if recovery {
            "attempt.recovery_process_already_exited"@
        } else {
            "attempt.cancellation_completed"@
        },
        _ => if recovery {
            "attempt.recovery_stale_process"@
        } else {
            "attempt.cancellation_stale_process"@
        },
    }
}

/// The step a cancellation report on a live (not aborted, not awaiting
/// reconciliation) attempt takes.
pub open spec fn cancellation_step(
    status: Seq<char>,
    owner_cancelled: bool,
    outcome: AgentCancellationOutcome,
    uncertain_effects: i64,
) -> Option<(Seq<char>, Seq<char>, AgentCancellationDisposition)> {
    let recovery = recovery_cancellation(status, owner_cancelled);
    if outcome == AgentCancellationOutcome::ReconciliationRequired || uncertain_effects > 0 {
        None
    } else if !owner_cancelled && !recovery {
        None
    } else {
        Some(
            (
                abort_reason(outcome, recovery),
                abort_event(outcome, recovery),
                if outcome == AgentCancellationOutcome::IdentityMismatch {
                    AgentCancellationDisposition::RetireStale
                } else {
                    AgentCancellationDisposition::Completed
                },
            ),
        )
    }
}

/// Decides what a cancellation report does to a live attempt: an
/// unverifiable report or an uncertain effect sends it to reconciliation;
/// a report nobody asked for retires the agent; otherwise it is aborted.
pub fn plan_agent_cancellation(
    status: &str,
    owner_cancelled: bool,
    outcome: AgentCancellationOutcome,
    uncertain_effects: i64,
) -> (r: CancellationStep)
    ensures
        (outcome == AgentCancellationOutcome::ReconciliationRequired || uncertain_effects > 0) ==> r
            == CancellationStep::RequireReconciliation,
        !(outcome == AgentCancellationOutcome::ReconciliationRequired || uncertain_effects > 0) && !owner_cancelled
            && !recovery_cancellation(status@, owner_cancelled) ==> r == CancellationStep::RetireStale,
        r matches CancellationStep::Abort { reason, event_kind, disposition } ==> cancellation_step(
            status@,
            owner_cancelled,
            outcome,
            uncertain_effects,
        ) == Some((reason@, event_kind@, disposition)),
        cancellation_step(status@, owner_cancelled, outcome, uncertain_effects) is Some ==> r is Abort,
{
    if outcome == AgentCancellationOutcome::ReconciliationRequired || uncertain_effects > 0 {
        return CancellationStep::RequireReconciliation;
    }
    let recovery = !owner_cancelled && (str_eq(status, "accepted") || str_eq(status, "running") || str_eq(
        status,
        "cancelling",
    ));
    if !owner_cancelled && !recovery {
        return CancellationStep::RetireStale;
    }
    match outcome {
        AgentCancellationOutcome::Terminated => CancellationStep::Abort {
            reason: if recovery {
                "agent_recovery_terminated"
            } else {
                "agent_confirmed_cancellation"
            },
            event_kind: if recovery {
                "attempt.recovery_terminated"
            } else {
                "attempt.cancellation_completed"
            },
            disposition: AgentCancellationDisposition::Completed,
        },
        AgentCancellationOutcome::AlreadyExited => CancellationStep::Abort {
            reason: if recovery {
                "agent_recovery_process_already_exited"
            } else {
                "agent_process_already_exited"
            },
            event_kind: if recovery {
                "attempt.recovery_process_already_exited"
            } else {
                "attempt.cancellation_completed"
            },
            disposition: AgentCancellationDisposition::Completed,
        },
        _ => CancellationStep::Abort {
            reason: if recovery {
                "agent_recovery_stale_process"
            } else {
                "agent_process_identity_mismatch"
            },
            event_kind: if recovery {
                "attempt.recovery_stale_process"
            } else {
                "attempt.cancellation_stale_process"
            },
            disposition: AgentCancellationDisposition::RetireStale,
        },
    }
}

/// A process whose identity did not match never completes a cancellation:
/// the agent is retired as stale.
pub proof fn law_identity_mismatch_never_completes(status: Seq<char>, owner_cancelled: bool, uncertain_effects: i64)
    ensures
        cancellation_step(status, owner_cancelled, AgentCancellationOutcome::IdentityMismatch, uncertain_effects) matches Some(
            t,
        ) ==> t.2 == AgentCancellationDisposition::RetireStale,
{
}

/// An uncertain external effect always sends a cancellation to
/// reconciliation instead of aborting the attempt.
pub proof fn law_uncertain_effects_block_abort(status: Seq<char>, owner_cancelled: bool, outcome: AgentCancellationOutcome, uncertain_effects: i64)
    requires
        uncertain_effects > 0,
    ensures
        cancellation_step(status, owner_cancelled, outcome, uncertain_effects) is None,
{
}

/// What a cancellation request does to a build that is not a DAG build,
/// through its latest attempt.
#[derive(Clone, Copy, Debug, PartialEq, Eq, Structural)]
pub enum BuildCancellation {
    /// Cancellation was already requested; nothing changes.
    Refuse,
    /// The build never started: its attempt, node and build are aborted.
    AbortBeforeExecution,
    /// The build runs: cancellation is requested and its attempt told to stop.
    StopExecution,
}

pub fn plan_build_cancellation(build_status: &str, already_requested: bool) -> (r: BuildCancellation)
    ensures
        already_requested ==> r == BuildCancellation::Refuse,
        !already_requested && build_status@ == "queued"@ ==> r == BuildCancellation::AbortBeforeExecution,
        !already_requested && build_status@ != "queued"@ ==> r == BuildCancellation::StopExecution,
{
    if already_requested {
        BuildCancellation::Refuse
    } else if str_eq(build_status, "queued") {
        BuildCancellation::AbortBeforeExecution
    } else {
        BuildCancellation::StopExecution
    }
}

} // verus!
