use mcloving_controller_store::operations::{
    artifact_registration_is_valid, check_build_pipeline, check_pipeline_binding,
    deletion_batch_is_valid, legal_hold_request_is_valid, object_registration_is_valid,
    outbox_batch_is_valid, plan_restore_activation, preflight_step, retention_is_valid,
    validate_backup_id, validate_restore_request, validate_trust_pool, PipelineState,
    PreflightCheck, RestorePlan, refused_by_pipeline_state, check_existing_admission, BuildAdmission,
    NewBuild, StoredAdmission,
};
use mcloving_controller_store::StoreError;

const MAX_RETENTION: i64 = 100 * 365 * 24 * 60 * 60;

#[test]
fn retention_is_bounded_by_a_century() {
    assert!(retention_is_valid(0));
    assert!(retention_is_valid(MAX_RETENTION));
    assert!(!retention_is_valid(MAX_RETENTION + 1));
    assert!(!retention_is_valid(-1));
}

#[test]
fn object_and_artifact_registrations_are_bounded() {
    assert!(object_registration_is_valid("log.txt", 0));
    assert!(!object_registration_is_valid("", 0));
    assert!(!object_registration_is_valid("log.txt", -1));
    assert!(!object_registration_is_valid(&"n".repeat(513), 1));
    assert!(artifact_registration_is_valid("app.tar", 10, "application/x-tar", 60));
    assert!(!artifact_registration_is_valid("app\n.tar", 10, "application/x-tar", 60));
    assert!(!artifact_registration_is_valid("app.tar", 10, " application/x-tar", 60));
    assert!(!artifact_registration_is_valid("app.tar", 10, "", 60));
    assert!(!artifact_registration_is_valid("app.tar", 10, &"m".repeat(256), 60));
    assert!(!artifact_registration_is_valid("app.tar", 10, "application/x-tar", MAX_RETENTION + 1));
}

#[test]
fn holds_and_batches_are_bounded() {
    assert!(legal_hold_request_is_valid("case-1", "litigation"));
    assert!(!legal_hold_request_is_valid("", "litigation"));
    assert!(!legal_hold_request_is_valid("case-1", &"r".repeat(1025)));
    assert!(outbox_batch_is_valid(1000));
    assert!(!outbox_batch_is_valid(1001));
    assert!(!outbox_batch_is_valid(0));
    assert!(deletion_batch_is_valid(10_000));
    assert!(!deletion_batch_is_valid(10_001));
}

#[test]
fn recovery_requests_are_bounded() {
    assert_eq!(validate_backup_id("nightly"), Ok(()));
    assert_eq!(
        validate_backup_id(""),
        Err(StoreError::InvalidRecoveryOperation("backup id must contain between 1 and 256 bytes".to_owned()))
    );
    assert_eq!(validate_restore_request("nightly", "disk loss"), Ok(()));
    assert_eq!(
        validate_restore_request("nightly", ""),
        Err(StoreError::InvalidRecoveryOperation(
            "backup id and restore reason must be non-empty and bounded".to_owned()
        ))
    );
}

#[test]
fn trust_pools_are_canonical() {
    assert_eq!(validate_trust_pool("linux"), Ok(()));
    assert_eq!(validate_trust_pool(""), Err(StoreError::InvalidTrustPool));
    assert_eq!(validate_trust_pool("   "), Err(StoreError::InvalidTrustPool));
    assert_eq!(validate_trust_pool(" linux"), Err(StoreError::InvalidTrustPool));
}

fn state<'a>(revision: i64, generation: i64, state: &'a str, digest: &'a [u8]) -> PipelineState<'a> {
    PipelineState { current_revision: revision, operational_generation: generation, state, revision_digest: digest }
}

#[test]
fn admission_bindings_must_name_the_current_enabled_pipeline() {
    let digest = [4u8; 32];
    assert_eq!(check_pipeline_binding(1, 2, 3, Some(state(2, 3, "enabled", &digest))), Ok(digest));
    assert_eq!(
        check_pipeline_binding(1, 0, 3, None),
        Err(StoreError::InvalidPipelineState(
            "pipeline admission binding must use positive revision and generation".to_owned()
        ))
    );
    assert_eq!(
        check_pipeline_binding(1, 2, 3, None),
        Err(StoreError::PipelineStateConflict(
            "pipeline admission binding does not identify a saved pipeline".to_owned()
        ))
    );
    assert_eq!(
        check_pipeline_binding(1, 2, 3, Some(state(2, 5, "disabled", &digest))),
        Err(StoreError::PipelineDisabled { pipeline_id: 1, generation: 5 })
    );
    assert_eq!(
        check_pipeline_binding(1, 2, 3, Some(state(2, 3, "paused", &digest))),
        Err(StoreError::InvalidPipelineState("stored pipeline operational state 'paused' is invalid".to_owned()))
    );
    assert_eq!(
        check_pipeline_binding(1, 2, 3, Some(state(7, -12, "enabled", &digest))),
        Err(StoreError::PipelineStateConflict(
            "pipeline admission binding is stale: current revision/generation is 7/-12".to_owned()
        ))
    );
    assert_eq!(
        check_pipeline_binding(1, 2, 3, Some(state(2, 3, "enabled", &digest[..31]))),
        Err(StoreError::PipelineStateConflict("saved pipeline revision digest is not SHA-256 sized".to_owned()))
    );
}

#[test]
fn build_pipelines_must_stay_at_their_admitted_generation() {
    assert_eq!(check_build_pipeline(Some((Some(9), Some(4))), Some((4, "enabled"))), Ok((9, 4)));
    assert_eq!(
        check_build_pipeline(Some((None, Some(4))), Some((4, "enabled"))),
        Err(StoreError::PipelineStateConflict(
            "build is missing its pipeline operational-state binding".to_owned()
        ))
    );
    assert_eq!(
        check_build_pipeline(Some((Some(9), Some(4))), None),
        Err(StoreError::PipelineStateConflict("build pipeline operational-state truth is missing".to_owned()))
    );
    assert_eq!(
        check_build_pipeline(Some((Some(9), Some(4))), Some((6, "disabled"))),
        Err(StoreError::PipelineDisabled { pipeline_id: 9, generation: 6 })
    );
    assert_eq!(
        check_build_pipeline(Some((Some(9), Some(4))), Some((10, "enabled"))),
        Err(StoreError::PipelineStateConflict(
            "build pipeline generation 4 is stale; current generation is 10".to_owned()
        ))
    );
}

#[test]
fn restore_activation_replays_refuses_or_advances() {
    assert_eq!(
        plan_restore_activation(3, Some((4, 12)), Some(3)),
        Ok(RestorePlan::Replay { restore_epoch: 4, affected_attempts: 12 })
    );
    assert_eq!(
        plan_restore_activation(3, Some((4, -1)), None),
        Err(StoreError::InvalidRecoveryOperation("stored affected-attempt count is invalid".to_owned()))
    );
    assert_eq!(plan_restore_activation(3, None, None), Ok(RestorePlan::NoRecoveryPoint));
    assert_eq!(
        plan_restore_activation(3, None, Some(2)),
        Err(StoreError::InvalidRecoveryOperation(
            "recovery point belongs to restore epoch 2, current epoch is 3".to_owned()
        ))
    );
    assert_eq!(
        plan_restore_activation(i64::MAX, None, Some(i64::MAX)),
        Err(StoreError::InvalidRecoveryOperation("restore epoch overflow".to_owned()))
    );
    assert_eq!(plan_restore_activation(3, None, Some(3)), Ok(RestorePlan::Activate { restore_epoch: 4 }));
}

#[test]
fn runtime_preflight_checks_in_order() {
    let mut check = PreflightCheck::SharedCluster;
    let mut seen = vec![check];
    while let Some(next) = preflight_step(check, true, "org").unwrap() {
        check = next;
        seen.push(check);
    }
    assert_eq!(
        seen,
        vec![
            PreflightCheck::SharedCluster,
            PreflightCheck::SameDatabase,
            PreflightCheck::ConstrainedRole,
            PreflightCheck::LeastPrivilege,
            PreflightCheck::RowLevelSecurity,
            PreflightCheck::OrganizationVisible,
            PreflightCheck::TenantIsolation,
        ]
    );
    assert_eq!(
        preflight_step(PreflightCheck::OrganizationVisible, false, "0000-1"),
        Err(StoreError::InvalidRuntimeConfiguration(
            "organization 0000-1 is not visible to the runtime role".to_owned()
        ))
    );
    assert_eq!(
        preflight_step(PreflightCheck::SharedCluster, false, "x"),
        Err(StoreError::InvalidRuntimeConfiguration(
            "migration and runtime pools do not share one live PostgreSQL cluster".to_owned()
        ))
    );
}

#[test]
fn pipeline_state_refusals_are_quiet() {
    assert!(refused_by_pipeline_state(&StoreError::PipelineDisabled { pipeline_id: 1, generation: 2 }));
    assert!(refused_by_pipeline_state(&StoreError::PipelineStateConflict("stale".to_owned())));
    assert!(!refused_by_pipeline_state(&StoreError::InvalidPipelineState("bad".to_owned())));
}

fn new_build() -> NewBuild {
    NewBuild {
        organization_id: 1,
        project_id: 2,
        pipeline_id: 3,
        pipeline_revision: 4,
        pipeline_operational_generation: 5,
        idempotency_key: "admit".to_owned(),
        pipeline_digest: [6; 32],
        node_key: "main".to_owned(),
        required_capabilities: vec!["linux".to_owned()],
        required_trust_pool: "default".to_owned(),
        priority: 7,
        execution_spec: b"{\"steps\":[]}".to_vec(),
    }
}

fn stored(input: &NewBuild) -> StoredAdmission {
    StoredAdmission {
        build_id: 10,
        node_id: 11,
        attempt_id: 12,
        organization_id: input.organization_id,
        pipeline_id: Some(input.pipeline_id),
        pipeline_revision: Some(input.pipeline_revision),
        pipeline_operational_generation: Some(input.pipeline_operational_generation),
        pipeline_digest: input.pipeline_digest.to_vec(),
        build_priority: input.priority,
        dag_mode: false,
        node_key: input.node_key.clone(),
        required_capabilities: input.required_capabilities.clone(),
        required_trust_pool: input.required_trust_pool.clone(),
        node_priority: input.priority,
        execution_spec: input.execution_spec.clone(),
    }
}

#[test]
fn a_repeated_admission_returns_the_same_build_or_conflicts() {
    let input = new_build();
    assert_eq!(check_existing_admission(&input, &Vec::new()), Ok(None));
    assert_eq!(
        check_existing_admission(&input, &vec![stored(&input)]),
        Ok(Some(BuildAdmission { build_id: 10, node_id: 11, attempt_id: 12, created: false }))
    );
    let mut other = stored(&input);
    other.execution_spec = b"{}".to_vec();
    assert_eq!(
        check_existing_admission(&input, &vec![other]),
        Err(StoreError::IdempotencyConflict(
            "idempotency key already belongs to a different build contract".to_owned()
        ))
    );
    let mut dag = stored(&input);
    dag.dag_mode = true;
    assert!(check_existing_admission(&input, &vec![dag]).is_err());
    assert_eq!(
        check_existing_admission(&input, &vec![stored(&input), stored(&input)]),
        Err(StoreError::IdempotencyConflict(
            "idempotent single-node build has a different node contract".to_owned()
        ))
    );
}
