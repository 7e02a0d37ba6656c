use mcloving_controller_store::attempts::{
    committed_log_digest, effect_key_is_valid, effect_payload_digest, finalization_answer,
    finalization_recovery_is_requested, plan_attempt_finalization, plan_effect_checkpoint,
    plan_log_append, prepare_log_content, reconciliation_actor_is_valid, validate_log_page_request,
    EffectCheckpointStep, FinalizationStep, LogAppendStep, StoredEffect, needs_running_mark,
    plan_finalization_recovery, reconciliation_disposition, reconciliation_trust_pool,
    stored_effect_digest, stored_session_epoch, RecoveryStep,
};
use mcloving_controller_store::controller::{AgentReconciliationDisposition, ReconciliationTrustPoolAuthorization};
use mcloving_controller_store::controller::{EffectClass, EffectStatus, TerminalOutcome};
use mcloving_controller_store::StoreError;

fn hex_of(bytes: &[u8]) -> String {
    bytes.iter().map(|b| format!("{b:02x}")).collect()
}

#[test]
fn finalization_records_only_a_clean_leased_attempt() {
    assert_eq!(
        plan_attempt_finalization(Some("running"), false, TerminalOutcome::Succeeded, true, 0),
        FinalizationStep::Record
    );
    assert_eq!(
        plan_attempt_finalization(None, false, TerminalOutcome::Succeeded, false, 0),
        FinalizationStep::Refuse
    );
    assert_eq!(
        plan_attempt_finalization(None, false, TerminalOutcome::Failed, true, 2),
        FinalizationStep::RequireReconciliation
    );
    assert!(finalization_answer(FinalizationStep::Record));
    assert!(!finalization_answer(FinalizationStep::Refuse));
    assert!(!finalization_answer(FinalizationStep::RequireReconciliation));
}

#[test]
fn finalization_replays_accept_only_identical_outcomes() {
    let same = plan_attempt_finalization(Some("failed"), true, TerminalOutcome::Failed, false, 5);
    assert_eq!(same, FinalizationStep::Replay { identical: true });
    assert!(finalization_answer(same));
    let other = plan_attempt_finalization(Some("failed"), true, TerminalOutcome::Succeeded, true, 0);
    assert_eq!(other, FinalizationStep::Replay { identical: false });
    assert!(!finalization_answer(other));
    assert_eq!(
        plan_attempt_finalization(Some("aborted"), false, TerminalOutcome::Aborted, true, 0),
        FinalizationStep::Replay { identical: false }
    );
}

#[test]
fn effect_keys_are_bounded() {
    assert!(effect_key_is_valid("deploy"));
    assert!(!effect_key_is_valid(""));
    assert!(effect_key_is_valid(&"k".repeat(256)));
    assert!(!effect_key_is_valid(&"k".repeat(257)));
}

#[test]
fn effect_payload_digest_is_the_sha256_of_the_payload() {
    assert_eq!(
        hex_of(&effect_payload_digest(b"{}")),
        "44136fa355b3678a1146ad16f7e8649e94fb4fc21fe77e8310c060f61caaff8a"
    );
}

#[test]
fn effect_checkpoints_start_prepared_and_keep_their_payload() {
    let digest = [7u8; 32];
    assert_eq!(
        plan_effect_checkpoint(None, EffectClass::Idempotent, EffectStatus::Prepared, &digest),
        EffectCheckpointStep::Insert
    );
    assert_eq!(
        plan_effect_checkpoint(None, EffectClass::Idempotent, EffectStatus::Applied, &digest),
        EffectCheckpointStep::Reject
    );
    let stored = || StoredEffect { effect_class: "idempotent", status: "prepared", payload_digest: digest };
    assert_eq!(
        plan_effect_checkpoint(Some(stored()), EffectClass::Idempotent, EffectStatus::Applied, &digest),
        EffectCheckpointStep::Advance
    );
    assert_eq!(
        plan_effect_checkpoint(Some(stored()), EffectClass::Idempotent, EffectStatus::Prepared, &digest),
        EffectCheckpointStep::Unchanged
    );
    assert_eq!(
        plan_effect_checkpoint(Some(stored()), EffectClass::NonIdempotent, EffectStatus::Applied, &digest),
        EffectCheckpointStep::Reject
    );
    assert_eq!(
        plan_effect_checkpoint(Some(stored()), EffectClass::Idempotent, EffectStatus::Applied, &[8u8; 32]),
        EffectCheckpointStep::Reject
    );
    let confirmed = StoredEffect { effect_class: "idempotent", status: "confirmed", payload_digest: digest };
    assert_eq!(
        plan_effect_checkpoint(Some(confirmed), EffectClass::Idempotent, EffectStatus::Applied, &digest),
        EffectCheckpointStep::Reject
    );
}

#[test]
fn log_content_is_redacted_before_it_is_digested() {
    let (content, digest) = prepare_log_content(b"token=hunter2!", &[b"hunter2".to_vec()]).unwrap();
    assert_eq!(content, b"token=!".to_vec());
    assert_eq!(hex_of(&digest), hex_of(&effect_payload_digest(b"token=!")));
    let (plain, _) = prepare_log_content(b"plain", &[]).unwrap();
    assert_eq!(plain, b"plain".to_vec());
}

#[test]
fn log_appends_replay_or_respect_the_quota() {
    let digest = [1u8; 32];
    assert_eq!(
        plan_log_append(Some(("stdout", digest)), "stdout", &digest, 0, 10),
        LogAppendStep::Replay { identical: true }
    );
    assert_eq!(
        plan_log_append(Some(("stderr", digest)), "stdout", &digest, 0, 10),
        LogAppendStep::Replay { identical: false }
    );
    assert_eq!(plan_log_append(None, "stdout", &digest, 0, 10), LogAppendStep::Commit);
    assert_eq!(
        plan_log_append(None, "stdout", &digest, 64 * 1_048_576 - 10, 10),
        LogAppendStep::Commit
    );
    assert_eq!(
        plan_log_append(None, "stdout", &digest, 64 * 1_048_576 - 10, 11),
        LogAppendStep::QuotaExceeded
    );
}

#[test]
fn log_pages_need_a_complete_cursor_and_a_bounded_limit() {
    assert_eq!(validate_log_page_request(None, None, None, None, 10), Ok(()));
    assert_eq!(validate_log_page_request(Some(1), Some(0), Some(3), Some("stdout"), 1001), Ok(()));
    let refused = Err(StoreError::InvalidProductOperation(
        "log page requires a complete non-negative cursor and limit between 1 and 1001".to_owned(),
    ));
    assert_eq!(validate_log_page_request(None, None, None, None, 0), refused);
    assert_eq!(validate_log_page_request(None, None, None, None, 1002), refused);
    assert_eq!(validate_log_page_request(Some(1), None, Some(3), Some("stdout"), 5), refused);
    assert_eq!(validate_log_page_request(Some(1), Some(-1), Some(3), Some("stdout"), 5), refused);
}

#[test]
fn stored_log_digests_must_be_sha256_sized() {
    assert_eq!(committed_log_digest(9, 4, &[3u8; 32]), Ok([3u8; 32]));
    assert_eq!(
        committed_log_digest(9, 4, &[3u8; 31]),
        Err(StoreError::CorruptLogDigest { attempt_id: 9, sequence: 4 })
    );
}

#[test]
fn recovery_and_reconciliation_requests_are_bounded() {
    assert!(finalization_recovery_is_requested("finalizing", 30));
    assert!(finalization_recovery_is_requested("cancelling", 1));
    assert!(!finalization_recovery_is_requested("running", 30));
    assert!(!finalization_recovery_is_requested("finalizing", 0));
    assert!(reconciliation_actor_is_valid("operator"));
    assert!(!reconciliation_actor_is_valid(""));
    assert!(!reconciliation_actor_is_valid(&"a".repeat(257)));
}

#[test]
fn finalization_recovery_resumes_every_nonterminal_completion_phase() {
    assert_eq!(plan_finalization_recovery("running"), RecoveryStep::Resume);
    assert_eq!(plan_finalization_recovery("finalizing"), RecoveryStep::Resume);
    assert_eq!(plan_finalization_recovery("cancelling"), RecoveryStep::Resume);
    assert_eq!(plan_finalization_recovery("succeeded"), RecoveryStep::Acknowledge);
    assert_eq!(plan_finalization_recovery("aborted"), RecoveryStep::Acknowledge);
    assert_eq!(plan_finalization_recovery("queued"), RecoveryStep::Refuse);
    assert!(!needs_running_mark("running"));
    assert!(needs_running_mark("accepted"));
}

#[test]
fn agent_authority_is_checked_against_stored_truth() {
    assert_eq!(stored_session_epoch(7), Ok(7));
    assert_eq!(stored_session_epoch(u64::MAX), Err(StoreError::InvalidAgentSession));
    assert_eq!(reconciliation_trust_pool(Some("linux"), "linux"), ReconciliationTrustPoolAuthorization::Matching);
    assert_eq!(reconciliation_trust_pool(Some("linux"), "mac"), ReconciliationTrustPoolAuthorization::Mismatched);
    assert_eq!(reconciliation_trust_pool(None, "linux"), ReconciliationTrustPoolAuthorization::Missing);
    assert_eq!(reconciliation_disposition(true, Some((true, false))), AgentReconciliationDisposition::Retain);
    assert_eq!(reconciliation_disposition(true, Some((true, true))), AgentReconciliationDisposition::Cancel);
    assert_eq!(reconciliation_disposition(false, Some((true, false))), AgentReconciliationDisposition::Cancel);
    assert_eq!(reconciliation_disposition(true, None), AgentReconciliationDisposition::Cancel);
    assert_eq!(stored_effect_digest(&[2; 32]), Ok([2; 32]));
    assert_eq!(
        stored_effect_digest(&[2; 3]),
        Err(StoreError::InvalidEffectPayload("stored effect digest is not 32 bytes".to_owned()))
    );
}
