//! Decisions on one fenced attempt once its stored state has been read:
//! finalizing it, checkpointing a durable effect, committing a log chunk,
//! and the bounds of the requests that reach those operations.
use vstd::prelude::*;

use crate::controller::{
    AgentReconciliationDisposition, ReconciliationTrustPoolAuthorization,
    recoverable_finalization_status, recoverable_status, effect_transition_allowed, log_quota_allows, valid_effect_transition, EffectClass, EffectStatus,
    TerminalOutcome, MAX_ATTEMPT_LOG_BYTES,
};
use crate::encoding::{digest_eq, digest_from_slice, sha256, sha256_spec};
use crate::redaction::{redact_to_fixed_point, redacted, aho_corasick_builds};
use crate::text::{byte_len, chars_of, str_eq, utf8_len};
use crate::StoreError;

verus! {

/// Stored attempt statuses that already hold a terminal outcome.
pub open spec fn terminal_attempt_status(status: Seq<char>) -> bool {
    status == "succeeded"@ || status == "failed"@ || status == "aborted"@
}

/// What a finalization request does to its attempt.
#[derive(Clone, Copy, Debug, PartialEq, Eq, Structural)]
pub enum FinalizationStep {
    /// The attempt already ended; the request is a replay, accepted only
    /// when it repeats the stored outcome and summary.
    Replay { identical: bool },
    /// The caller no longer holds a live lease on a running attempt.
    Refuse,
    /// Uncertain effects remain: the attempt, its node and its build await
    /// reconciliation and the outcome is not recorded.
    RequireReconciliation,
    /// The outcome is recorded.
    Record,
}

pub open spec fn finalization_step_spec(
    existing_status: Option<Seq<char>>,
    summary_matches: bool,
    outcome: TerminalOutcome,
    lease_held: bool,
    uncertain_effects: i64,
) -> FinalizationStep {
    match existing_status {
        Some(status) if terminal_attempt_status(status) => FinalizationStep::Replay {
            identical: status == outcome.name() && summary_matches,
        },
        _ => if !lease_held {
            FinalizationStep::Refuse
        } else if uncertain_effects > 0 {
            FinalizationStep::RequireReconciliation
        } else {
            FinalizationStep::Record
        },
    }
}

/// What the finalization request answers its caller.
pub open spec fn finalization_accepted(step: FinalizationStep) -> bool {
    match step {
        FinalizationStep::Replay { identical } => identical,
        FinalizationStep::Record => true,
        _ => false,
    }
}

/// Decides a finalization from the attempt's stored status (when the
/// caller's fence matches it), whether its stored summary equals the
/// offered one, whether the caller still holds a live lease, and how many
/// of the attempt's effects are uncertain.
pub fn plan_attempt_finalization(
    existing_status: Option<&str>,
    summary_matches: bool,
    outcome: TerminalOutcome,
    lease_held: bool,
    uncertain_effects: i64,
) -> (r: FinalizationStep)
    ensures
        r == finalization_step_spec(
            match existing_status {
                Some(s) => Some(s@),
                None => None,
            },
            summary_matches,
            outcome,
            lease_held,
            uncertain_effects,
        ),
{
    if let Some(status) = existing_status {
        if str_eq(status, "succeeded") || str_eq(status, "failed") || str_eq(status, "aborted") {
            return FinalizationStep::Replay {
                identical: str_eq(status, outcome.as_str()) && summary_matches,
            };
        }
    }
    if !lease_held {
        FinalizationStep::Refuse
    } else if uncertain_effects > 0 {
        FinalizationStep::RequireReconciliation
    } else {
        FinalizationStep::Record
    }
}

pub fn finalization_answer(step: FinalizationStep) -> (r: bool)
    ensures
        r == finalization_accepted(step),
{
    match step {
        FinalizationStep::Replay { identical } => identical,
        FinalizationStep::Record => true,
        _ => false,
    }
}

/// An attempt with uncertain effects is never finalized with an outcome,
/// and a replay never records anything.
pub proof fn law_uncertain_effects_block_finalization(
    existing_status: Option<Seq<char>>,
    summary_matches: bool,
    outcome: TerminalOutcome,
    lease_held: bool,
    uncertain_effects: i64,
)
    requires
        uncertain_effects > 0,
    ensures
        finalization_step_spec(existing_status, summary_matches, outcome, lease_held, uncertain_effects)
            != FinalizationStep::Record,
{
}

/// Finalizing an attempt that already ended accepts exactly a repeat of
/// its stored outcome with the same summary, whatever the lease or effects.
pub proof fn law_finalization_replays_are_idempotent(
    status: Seq<char>,
    summary_matches: bool,
    outcome: TerminalOutcome,
    lease_held: bool,
    uncertain_effects: i64,
)
    requires
        terminal_attempt_status(status),
    ensures
        finalization_accepted(
            finalization_step_spec(Some(status), summary_matches, outcome, lease_held, uncertain_effects),
        ) == (status == outcome.name() && summary_matches),
        finalization_step_spec(Some(status), summary_matches, outcome, lease_held, uncertain_effects) is Replay,
{
}

/// An effect key has between one and 256 bytes.
pub open spec fn effect_key_ok(key: Seq<char>) -> bool {
    key.len() > 0 && byte_len(key) <= 256
}

pub fn effect_key_is_valid(key: &str) -> (r: bool)
    ensures
        r == effect_key_ok(key@),
{
    chars_of(key).len() > 0 && utf8_len(key) <= 256
}

/// The digest that binds an effect checkpoint to its payload: SHA-256 of
/// the payload's compact JSON bytes.
pub fn effect_payload_digest(payload: &[u8]) -> (r: [u8; 32])
    ensures
        r@ == sha256_spec(payload@),
{
    sha256(payload)
}

/// A stored effect checkpoint: its class, its status and its payload digest.
pub struct StoredEffect<'a> {
    pub effect_class: &'a str,
    pub status: &'a str,
    pub payload_digest: [u8; 32],
}

/// What an effect checkpoint request does.
#[derive(Clone, Copy, Debug, PartialEq, Eq, Structural)]
pub enum EffectCheckpointStep {
    /// Refused: a new checkpoint that is not prepared, or one that changes
    /// the class or payload of the stored effect or moves it backwards.
    Reject,
    /// The stored effect already has the requested status.
    Unchanged,
    /// The stored effect moves to the requested status.
    Advance,
    /// A new prepared checkpoint is stored.
    Insert,
}

pub open spec fn effect_checkpoint_spec(
    existing: Option<(Seq<char>, Seq<char>, Seq<u8>)>,
    effect_class: EffectClass,
    status: EffectStatus,
    payload_digest: Seq<u8>,
) -> EffectCheckpointStep {
    match existing {
        Some((class, stored, digest)) => if !(class == effect_class.name() && digest == payload_digest
            && effect_transition_allowed(EffectStatus::from_name(stored), status)) {
            EffectCheckpointStep::Reject
        } else if stored == status.name() {
            EffectCheckpointStep::Unchanged
        } else {
            EffectCheckpointStep::Advance
        },
        None => if status is Prepared {
            EffectCheckpointStep::Insert
        } else {
            EffectCheckpointStep::Reject
        },
    }
}

pub open spec fn stored_effect_view(e: Option<StoredEffect>) -> Option<(Seq<char>, Seq<char>, Seq<u8>)> {
    match e {
        Some(s) => Some((s.effect_class@, s.status@, s.payload_digest@)),
        None => None,
    }
}

pub fn plan_effect_checkpoint(
    existing: Option<StoredEffect>,
    effect_class: EffectClass,
    status: EffectStatus,
    payload_digest: &[u8; 32],
) -> (r: EffectCheckpointStep)
    ensures
        r == effect_checkpoint_spec(stored_effect_view(existing), effect_class, status, payload_digest@),
{
    match existing {
        Some(stored) => {
            let valid = str_eq(stored.effect_class, effect_class.as_str()) && digest_eq(
                &stored.payload_digest,
                payload_digest,
            ) && valid_effect_transition(stored.status, status);
            if !valid {
                EffectCheckpointStep::Reject
            } else if str_eq(stored.status, status.as_str()) {
                EffectCheckpointStep::Unchanged
            } else {
                EffectCheckpointStep::Advance
            }
        },
        None => if status == EffectStatus::Prepared {
            EffectCheckpointStep::Insert
        } else {
            EffectCheckpointStep::Reject
        },
    }
}

/// A checkpoint never changes the class or the payload of a stored effect,
/// and an effect is first stored only as prepared.
pub proof fn law_effect_checkpoints_keep_class_and_payload(
    existing: Option<(Seq<char>, Seq<char>, Seq<u8>)>,
    effect_class: EffectClass,
    status: EffectStatus,
    payload_digest: Seq<u8>,
)
    ensures
        match effect_checkpoint_spec(existing, effect_class, status, payload_digest) {
            EffectCheckpointStep::Insert => existing is None && status is Prepared,
            EffectCheckpointStep::Advance | EffectCheckpointStep::Unchanged => existing matches Some(
                (class, stored, digest),
            ) && class == effect_class.name() && digest == payload_digest
                && effect_transition_allowed(EffectStatus::from_name(stored), status),
            EffectCheckpointStep::Reject => true,
        },
{
}

/// A log chunk as committed: its content with every secret redacted, and
/// the SHA-256 digest of that content.
pub fn prepare_log_content(content: &[u8], redactions: &[Vec<u8>]) -> (r: Result<(Vec<u8>, [u8; 32]), StoreError>)
    ensures
        r.is_err() <==> (redactions@.len() > 0 && !aho_corasick_builds(redactions.deep_view())),
        r matches Ok((c, d)) ==> c@ == redacted(content@, redactions.deep_view()) && d@ == sha256_spec(
            c@,
        ),
        r matches Err(e) ==> e is InvalidSecurityOperation,
{
    let content = redact_to_fixed_point(content, redactions)?;
    let digest = sha256(content.as_slice());
    Ok((content, digest))
}

/// What a log append does once the attempt's authority is confirmed.
#[derive(Clone, Copy, Debug, PartialEq, Eq, Structural)]
pub enum LogAppendStep {
    /// A chunk with this sequence exists; the append is a replay, accepted
    /// only when stream and digest repeat.
    Replay { identical: bool },
    /// The chunk would take the attempt past its log quota.
    QuotaExceeded,
    /// The chunk is committed.
    Commit,
}

pub open spec fn log_append_spec(
    existing: Option<(Seq<char>, Seq<u8>)>,
    stream: Seq<char>,
    digest: Seq<u8>,
    committed: i64,
    incoming: i64,
) -> LogAppendStep {
    match existing {
        Some((s, d)) => LogAppendStep::Replay { identical: s == stream && d == digest },
        None => if committed >= 0 && incoming >= 0 && committed + incoming <= MAX_ATTEMPT_LOG_BYTES {
            LogAppendStep::Commit
        } else {
            LogAppendStep::QuotaExceeded
        },
    }
}

pub fn plan_log_append(
    existing: Option<(&str, [u8; 32])>,
    stream: &str,
    digest: &[u8; 32],
    committed: i64,
    incoming: i64,
) -> (r: LogAppendStep)
    ensures
        r == log_append_spec(
            match existing {
                Some((s, d)) => Some((s@, d@)),
                None => None,
            },
            stream@,
            digest@,
            committed,
            incoming,
        ),
{
    match existing {
        Some((s, d)) => LogAppendStep::Replay { identical: str_eq(s, stream) && digest_eq(&d, digest) },
        None => if log_quota_allows(committed, incoming) {
            LogAppendStep::Commit
        } else {
            LogAppendStep::QuotaExceeded
        },
    }
}

/// A log page cursor is all-or-nothing and non-negative, and a page holds
/// between one and 1001 chunks.
pub open spec fn log_page_request_ok(
    after_attempt_id: Option<u128>,
    after_fence: Option<i64>,
    after_sequence: Option<i64>,
    after_stream: Option<Seq<char>>,
    limit: u32,
) -> bool {
    let any = after_attempt_id is Some || after_fence is Some || after_sequence is Some || after_stream is Some;
    let all = after_attempt_id is Some && after_fence is Some && after_sequence is Some && after_stream is Some;
    &&& 1 <= limit <= 1001
    &&& (after_fence matches Some(f) ==> f >= 0)
    &&& (after_sequence matches Some(s) ==> s >= 0)
    &&& any == all
}

pub fn validate_log_page_request(
    after_attempt_id: Option<u128>,
    after_fence: Option<i64>,
    after_sequence: Option<i64>,
    after_stream: Option<&str>,
    limit: u32,
) -> (r: Result<(), StoreError>)
    ensures
        r is Ok <==> log_page_request_ok(
            after_attempt_id,
            after_fence,
            after_sequence,
            match after_stream {
                Some(s) => Some(s@),
                None => None,
            },
            limit,
        ),
        r matches Err(e) ==> e is InvalidProductOperation,
{
    let any = after_attempt_id.is_some() || after_fence.is_some() || after_sequence.is_some()
        || after_stream.is_some();
    let all = after_attempt_id.is_some() && after_fence.is_some() && after_sequence.is_some()
        && after_stream.is_some();
    let negative_fence = match after_fence {
        Some(f) => f < 0,
        None => false,
    };
    let negative_sequence = match after_sequence {
        Some(s) => s < 0,
        None => false,
    };
    if limit == 0 || limit > 1001 || negative_fence || negative_sequence || any != all {
        return Err(
            StoreError::InvalidProductOperation(
                "log page requires a complete non-negative cursor and limit between 1 and 1001".to_owned(),
            ),
        );
    }
    Ok(())
}

/// The digest of a stored log chunk, which must be exactly 32 bytes.
pub fn committed_log_digest(attempt_id: u128, sequence: i64, digest: &[u8]) -> (r: Result<[u8; 32], StoreError>)
    ensures
        r is Ok <==> digest@.len() == 32,
        r matches Ok(d) ==> d@ == digest@,
        r matches Err(e) ==> e == (StoreError::CorruptLogDigest { attempt_id, sequence }),
{
    match digest_from_slice(digest) {
        Some(d) => Ok(d),
        None => Err(StoreError::CorruptLogDigest { attempt_id, sequence }),
    }
}

/// An agent may ask to recover a finalization only from the finalizing or
/// cancelling phase and with a positive lease.
pub open spec fn finalization_recovery_ok(local_phase: Seq<char>, lease_seconds: i32) -> bool {
    (local_phase == "finalizing"@ || local_phase == "cancelling"@) && lease_seconds > 0
}

pub fn finalization_recovery_is_requested(local_phase: &str, lease_seconds: i32) -> (r: bool)
    ensures
        r == finalization_recovery_ok(local_phase@, lease_seconds),
{
    (str_eq(local_phase, "finalizing") || str_eq(local_phase, "cancelling")) && lease_seconds > 0
}

/// The actor that settles a reconciled attempt has between one and 256 bytes.
pub open spec fn reconciliation_actor_ok(actor: Seq<char>) -> bool {
    actor.len() > 0 && byte_len(actor) <= 256
}

pub fn reconciliation_actor_is_valid(actor: &str) -> (r: bool)
    ensures
        r == reconciliation_actor_ok(actor@),
{
    chars_of(actor).len() > 0 && utf8_len(actor) <= 256
}

/// What a finalization recovery does with the attempt's stored status.
#[derive(Clone, Copy, Debug, PartialEq, Eq, Structural)]
pub enum RecoveryStep {
    /// The attempt is neither terminal nor in a completion phase.
    Refuse,
    /// The attempt already ended; the recovery is acknowledged as it is.
    Acknowledge,
    /// The attempt re-enters the agent's local phase with a fresh lease.
    Resume,
}

pub open spec fn recovery_step_spec(status: Seq<char>) -> RecoveryStep {
    if recoverable_status(status) {
        RecoveryStep::Resume
    } else if terminal_attempt_status(status) {
        RecoveryStep::Acknowledge
    } else {
        RecoveryStep::Refuse
    }
}

/// Every nonterminal completion phase is resumable: whichever of
/// completion and cancellation won the race, the durable result converges.
pub fn plan_finalization_recovery(status: &str) -> (r: RecoveryStep)
    ensures
        r == recovery_step_spec(status@),
{
    if recoverable_finalization_status(status) {
        RecoveryStep::Resume
    } else if str_eq(status, "succeeded") || str_eq(status, "failed") || str_eq(status, "aborted") {
        RecoveryStep::Acknowledge
    } else {
        RecoveryStep::Refuse
    }
}

/// An attempt's status that is marked running only when it is not running
/// already.
pub fn needs_running_mark(status: &str) -> (r: bool)
    ensures
        r == (status@ != "running"@),
{
    !str_eq(status, "running")
}

/// The payload digest of a stored effect, which must be exactly 32 bytes.
pub fn stored_effect_digest(digest: &[u8]) -> (r: Result<[u8; 32], StoreError>)
    ensures
        r is Ok <==> digest@.len() == 32,
        r matches Ok(d) ==> d@ == digest@,
        r matches Err(e) ==> e matches StoreError::InvalidEffectPayload(m) && m@
            == "stored effect digest is not 32 bytes"@,
{
    match digest_from_slice(digest) {
        Some(d) => Ok(d),
        None => Err(StoreError::InvalidEffectPayload("stored effect digest is not 32 bytes".to_owned())),
    }
}

/// A session epoch as stored: it must fit in an `i64`.
pub fn stored_session_epoch(session_epoch: u64) -> (r: Result<i64, StoreError>)
    ensures
        session_epoch <= i64::MAX ==> r == Ok::<i64, StoreError>(session_epoch as i64),
        session_epoch > i64::MAX ==> r == Err::<i64, StoreError>(StoreError::InvalidAgentSession),
{
    if session_epoch > i64::MAX as u64 {
        return Err(StoreError::InvalidAgentSession);
    }
    Ok(session_epoch as i64)
}

/// How the trust pool an agent's session carries compares with the pool its
/// journaled attempt's node requires.
pub fn reconciliation_trust_pool(required: Option<&str>, offered: &str) -> (r: ReconciliationTrustPoolAuthorization)
    ensures
        match required {
            None => r == ReconciliationTrustPoolAuthorization::Missing,
            Some(p) => if p@ == offered@ {
                r == ReconciliationTrustPoolAuthorization::Matching
            } else {
                r == ReconciliationTrustPoolAuthorization::Mismatched
            },
        },
{
    match required {
        None => ReconciliationTrustPoolAuthorization::Missing,
        Some(p) => if str_eq(p, offered) {
            ReconciliationTrustPoolAuthorization::Matching
        } else {
            ReconciliationTrustPoolAuthorization::Mismatched
        },
    }
}

/// A recovered attempt is retained only when the agent's session still
/// holds and the stored attempt, under the caller's exact authority, is
/// still live and not cancelled; `authority` holds those two facts when the
/// attempt was found.
pub fn reconciliation_disposition(session_held: bool, authority: Option<(bool, bool)>) -> (r:
    AgentReconciliationDisposition)
    ensures
        r == (if session_held && authority == Some((true, false)) {
            AgentReconciliationDisposition::Retain
        } else {
            AgentReconciliationDisposition::Cancel
        }),
{
    if !session_held {
        return AgentReconciliationDisposition::Cancel;
    }
    match authority {
        Some((true, false)) => AgentReconciliationDisposition::Retain,
        _ => AgentReconciliationDisposition::Cancel,
    }
}

} // verus!
