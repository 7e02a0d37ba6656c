use mcloving_controller_store::controller::{
    artifact_publication_step, audit_category_for_event, hex_digest, ArtifactPublication, log_quota_allows, log_sequence_is_bounded,
    parse_effect_class, parse_effect_status, parse_object_kind, parse_object_status,
    recoverable_finalization_status, valid_effect_transition, EffectClass, EffectStatus, ObjectKind,
    ObjectStatus, TerminalOutcome, MAX_ATTEMPT_LOG_BYTES, MAX_ATTEMPT_LOG_CHUNKS,
};
use mcloving_controller_store::redaction::redact_to_fixed_point;
use mcloving_controller_store::StoreError;

#[test]
fn credential_redaction_reaches_a_fixed_point() {
    assert_eq!(
        redact_to_fixed_point(b"abc", &[b"b".to_vec(), b"ac".to_vec()]).unwrap(),
        b""
    );
}

#[test]
fn finalization_recovery_accepts_all_nonterminal_completion_races() {
    for status in ["running", "finalizing", "cancelling"] {
        assert!(recoverable_finalization_status(status));
    }
    for status in [
        "queued",
        "offered",
        "accepted",
        "reconciliation_required",
        "succeeded",
        "failed",
        "aborted",
    ] {
        assert!(!recoverable_finalization_status(status));
    }
}

#[test]
fn log_quota_is_closed_at_the_boundary() {
    assert!(log_quota_allows(MAX_ATTEMPT_LOG_BYTES - 1, 1));
    assert!(!log_quota_allows(MAX_ATTEMPT_LOG_BYTES, 1));
    assert!(!log_quota_allows(i64::MAX, i64::MAX));
    assert!(!log_quota_allows(-1, 1));
    assert!(log_sequence_is_bounded(0));
    assert!(log_sequence_is_bounded(MAX_ATTEMPT_LOG_CHUNKS - 1));
    assert!(!log_sequence_is_bounded(MAX_ATTEMPT_LOG_CHUNKS));
    assert!(!log_sequence_is_bounded(-1));
}

#[test]
fn protected_environment_approval_events_use_the_approval_category() {
    assert_eq!(audit_category_for_event("environment.approved"), "approval");
    assert_eq!(audit_category_for_event("approval.requested"), "approval");
}

#[test]
fn audit_categories_follow_the_first_matching_keyword() {
    assert_eq!(audit_category_for_event("credential.approved"), "credential_grant");
    assert_eq!(audit_category_for_event("artifact.registered"), "artifact");
    assert_eq!(audit_category_for_event("object.deleted"), "artifact");
    assert_eq!(audit_category_for_event("attempt.scheduled"), "scheduling");
}

#[test]
fn redaction_removes_every_secret_occurrence() {
    let out = redact_to_fixed_point(b"token=s3cr3t;again=s3cr3t", &[b"s3cr3t".to_vec()]).unwrap();
    assert_eq!(out, b"token=;again=".to_vec());
}

#[test]
fn redaction_prefers_the_longest_secret() {
    let out = redact_to_fixed_point(b"xabcdx", &[b"cd".to_vec(), b"abcd".to_vec()]).unwrap();
    assert_eq!(out, b"xx".to_vec());
}

#[test]
fn redaction_is_idempotent_and_ignores_empty_secrets() {
    let secrets = vec![Vec::new(), b"pw".to_vec()];
    let once = redact_to_fixed_point(b"ppww-pw", &secrets).unwrap();
    assert_eq!(once, b"-".to_vec());
    let twice = redact_to_fixed_point(&once, &secrets).unwrap();
    assert_eq!(twice, once);
    let none = redact_to_fixed_point(b"plain", &[]).unwrap();
    assert_eq!(none, b"plain".to_vec());
}

#[test]
fn effect_transitions_never_leave_confirmed() {
    assert!(valid_effect_transition("confirmed", EffectStatus::Confirmed));
    assert!(!valid_effect_transition("confirmed", EffectStatus::Uncertain));
    assert!(!valid_effect_transition("confirmed", EffectStatus::Prepared));
    assert!(valid_effect_transition("prepared", EffectStatus::Applied));
    assert!(valid_effect_transition("uncertain", EffectStatus::Confirmed));
    assert!(!valid_effect_transition("applied", EffectStatus::Prepared));
    assert!(!valid_effect_transition("unknown", EffectStatus::Prepared));
}

#[test]
fn stored_names_parse_back() {
    for class in [EffectClass::Idempotent, EffectClass::ExternallyIdempotent, EffectClass::NonIdempotent] {
        assert_eq!(parse_effect_class(class.as_str()), Ok(class));
    }
    for status in [
        EffectStatus::Prepared,
        EffectStatus::Applied,
        EffectStatus::Confirmed,
        EffectStatus::Uncertain,
    ] {
        assert_eq!(parse_effect_status(status.as_str()), Ok(status));
    }
    for kind in [ObjectKind::Log, ObjectKind::Artifact, ObjectKind::Result] {
        assert_eq!(parse_object_kind(kind.as_str()), Ok(kind));
    }
    for status in [
        ObjectStatus::Pending,
        ObjectStatus::Available,
        ObjectStatus::Missing,
        ObjectStatus::Corrupt,
    ] {
        assert_eq!(parse_object_status(status.as_str()), Ok(status));
    }
    assert_eq!(
        parse_effect_class("bogus"),
        Err(StoreError::InvalidEffectPayload("unknown effect class bogus".to_owned()))
    );
    assert_eq!(
        parse_object_status("gone"),
        Err(StoreError::InvalidObjectRecord("unknown object status gone".to_owned()))
    );
    assert_eq!(TerminalOutcome::Aborted.as_str(), "aborted");
}

#[test]
fn digests_print_as_lowercase_hex() {
    let mut digest = [0u8; 32];
    digest[0] = 0xab;
    digest[31] = 0x0f;
    let text = hex_digest(&digest);
    assert_eq!(text.len(), 64);
    assert!(text.starts_with("ab00"));
    assert!(text.ends_with("000f"));
}

#[test]
fn failures_read_as_their_display_text() {
    assert_eq!(
        StoreError::CorruptAuditChain { organization_id: 0x0123_4567_89ab_cdef_0011_2233_4455_6677, sequence: -3 }
            .describe(),
        "audit chain for tenant 01234567-89ab-cdef-0011-223344556677 is corrupt at sequence -3"
    );
    assert_eq!(
        StoreError::PipelineDisabled { pipeline_id: 1, generation: 12 }.describe(),
        "pipeline 00000000-0000-0000-0000-000000000001 is disabled at operational generation 12"
    );
    assert_eq!(
        StoreError::InvalidDag("cycle".to_owned()).describe(),
        "invalid pipeline DAG: cycle"
    );
    assert_eq!(StoreError::InvalidTrustPool.describe(), "required agent trust pool must be non-empty");
    assert_eq!(
        StoreError::CorruptLogDigest { attempt_id: u128::MAX, sequence: 0 }.describe(),
        "attempt ffffffff-ffff-ffff-ffff-ffffffffffff log sequence 0 has a corrupt digest"
    );
}

#[test]
fn only_pending_artifacts_are_published() {
    assert_eq!(artifact_publication_step(Some("pending")), ArtifactPublication::Publish);
    assert_eq!(artifact_publication_step(Some("available")), ArtifactPublication::AlreadyAvailable);
    assert_eq!(artifact_publication_step(Some("deleted")), ArtifactPublication::Refuse);
    assert_eq!(artifact_publication_step(None), ArtifactPublication::Refuse);
}
