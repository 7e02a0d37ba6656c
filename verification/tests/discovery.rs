use mcloving_controller_store::audit::{compute_audit_event_hash, AuditEvent};
use mcloving_controller_store::discovery::{
    canonical_sha256, check_parent_quiesce, check_parent_replay, check_parent_restore,
    check_scan_cursor, check_scan_parent, check_scan_replay, child_state_for, child_update,
    plan_parent_generation, retained_child_keys, scan_receipt_counts, selected_observation_count,
    ParentGenerationPlan, digest_array, discovery_identity_matches, evaluate_observations, matches_branch_filters,
    parent_select, same_parent_behavior, same_parent_behavior_write, validate_observation,
    validate_parent_write, validate_relative_path, validate_scan, validate_string_set,
    verify_discovery_transfer_snapshot, DiscoveredRefKind, DiscoveryChild, DiscoveryChildState,
    DiscoveryObservation, DiscoveryObservationDisposition, DiscoveryObservationWrite,
    DiscoveryParent, DiscoveryParentKind, DiscoveryParentState, DiscoveryParentWrite,
    DiscoveryScanRecord, DiscoveryScanSource, DiscoveryScanWrite, DiscoveryTransferSnapshot,
    ForkTrustStrategy, OrphanPolicy, PullRequestDiscoveryStrategy, StoredTrigger,
    check_live_authorities, check_parent_dependencies, check_observation_identity, retires_orphans,
};
use mcloving_controller_store::StoreError;

fn strings(values: &[&str]) -> Vec<String> {
    values.iter().map(|v| (*v).to_owned()).collect()
}

fn parent_write() -> DiscoveryParentWrite {
    DiscoveryParentWrite {
        organization_id: 1,
        project_id: 2,
        pipeline_id: 3,
        parent_id: 4,
        expected_generation: 0,
        kind: DiscoveryParentKind::MultibranchPipeline,
        state: DiscoveryParentState::Enabled,
        implementation_sha256: [1; 32],
        protocol_version: "v1".to_owned(),
        expected_configuration_sha256: [2; 32],
        provider: "github".to_owned(),
        provider_identity: "github.com".to_owned(),
        organization_identity: None,
        repositories: strings(&["org/app", "org/lib"]),
        branch_includes: strings(&["main", "release/"]),
        branch_excludes: strings(&["release/old"]),
        pull_request_strategy: PullRequestDiscoveryStrategy::OriginAndForks,
        fork_trust_strategy: ForkTrustStrategy::NamedRepositories,
        trusted_fork_repositories: strings(&["friend/app"]),
        jenkinsfile_path: "ci/Jenkinsfile".to_owned(),
        child_configuration_policy_sha256: [3; 32],
        orphan_policy: OrphanPolicy::Retire,
        authorization_generation: 1,
        authorization_policy_sha256: [4; 32],
        trigger_id: 9,
        trigger_generation: 1,
        trigger_configuration_sha256: [5; 32],
        source_implementation_sha256: [6; 32],
        source_protocol_version: "jenkins-1".to_owned(),
        source_configuration_sha256: [7; 32],
        restored_from_generation: None,
        actor_subject: "admin".to_owned(),
        reason: "migrate".to_owned(),
        idempotency_key: "put-1".to_owned(),
    }
}

fn parent(generation: i64, state: DiscoveryParentState) -> DiscoveryParent {
    let w = parent_write();
    DiscoveryParent {
        organization_id: w.organization_id,
        project_id: w.project_id,
        pipeline_id: w.pipeline_id,
        parent_id: w.parent_id,
        generation,
        kind: w.kind,
        state,
        implementation_sha256: w.implementation_sha256,
        protocol_version: w.protocol_version,
        configuration_sha256: w.expected_configuration_sha256,
        provider: w.provider,
        provider_identity: w.provider_identity,
        organization_identity: w.organization_identity,
        repositories: w.repositories,
        branch_includes: w.branch_includes,
        branch_excludes: w.branch_excludes,
        pull_request_strategy: w.pull_request_strategy,
        fork_trust_strategy: w.fork_trust_strategy,
        trusted_fork_repositories: w.trusted_fork_repositories,
        jenkinsfile_path: w.jenkinsfile_path,
        child_configuration_policy_sha256: w.child_configuration_policy_sha256,
        orphan_policy: w.orphan_policy,
        authorization_generation: w.authorization_generation,
        authorization_policy_sha256: w.authorization_policy_sha256,
        trigger_id: w.trigger_id,
        trigger_generation: w.trigger_generation,
        trigger_configuration_sha256: w.trigger_configuration_sha256,
        source_implementation_sha256: w.source_implementation_sha256,
        source_protocol_version: w.source_protocol_version,
        source_configuration_sha256: w.source_configuration_sha256,
        restored_from_generation: w.restored_from_generation,
        actor_subject: w.actor_subject,
        reason: w.reason,
        idempotency_key: w.idempotency_key,
        audit_sequence: generation,
        audit_event_hash: [8; 32],
    }
}

fn observation(key: &str, kind: DiscoveredRefKind, name: &str, head: &str) -> DiscoveryObservationWrite {
    DiscoveryObservationWrite {
        child_key: key.to_owned(),
        child_pipeline_id: key.bytes().fold(0u128, |a, b| a * 31 + b as u128),
        repository_identity: "org/app".to_owned(),
        ref_kind: kind,
        ref_name: name.to_owned(),
        pull_request_number: if kind == DiscoveredRefKind::PullRequest { Some(7) } else { None },
        head_repository_identity: head.to_owned(),
        present: true,
        revision: "abcdef0".to_owned(),
        provenance_sha256: [1; 32],
        jenkinsfile_path: "ci/Jenkinsfile".to_owned(),
        jenkinsfile_sha256: [2; 32],
        child_configuration_sha256: [3; 32],
    }
}

#[test]
fn stored_discovery_names_parse_back() {
    assert_eq!(DiscoveryParentKind::parse("organization_folder"), Ok(DiscoveryParentKind::OrganizationFolder));
    assert_eq!(
        DiscoveryParentKind::parse("folder"),
        Err(StoreError::InvalidDiscovery("stored discovery parent kind 'folder' is invalid".to_owned()))
    );
    assert_eq!(PullRequestDiscoveryStrategy::parse("none"), Ok(PullRequestDiscoveryStrategy::NoPullRequests));
    assert_eq!(ForkTrustStrategy::parse(ForkTrustStrategy::NoForks.as_str()), Ok(ForkTrustStrategy::NoForks));
    assert_eq!(OrphanPolicy::parse("retain"), Ok(OrphanPolicy::Retain));
    assert_eq!(DiscoveredRefKind::parse("pull_request"), Ok(DiscoveredRefKind::PullRequest));
    assert_eq!(DiscoveryChildState::parse("retired"), Ok(DiscoveryChildState::Retired));
    assert_eq!(
        DiscoveryObservationDisposition::parse("filtered"),
        Ok(DiscoveryObservationDisposition::Filtered)
    );
    assert_eq!(DiscoveryParentState::parse("quiesced"), Ok(DiscoveryParentState::Quiesced));
    assert_eq!(DiscoveryScanSource::Recovery.as_str(), "recovery");
}

#[test]
fn jenkinsfile_paths_are_normalized_relative_paths() {
    assert!(validate_relative_path("ci/Jenkinsfile").is_ok());
    assert!(validate_relative_path("Jenkinsfile").is_ok());
    for bad in ["/Jenkinsfile", "ci/", "ci//Jenkinsfile", "./Jenkinsfile", "ci/../Jenkinsfile", "ci\\Jenkinsfile", "..", ""] {
        assert_eq!(
            validate_relative_path(bad),
            Err(StoreError::InvalidDiscovery("Jenkinsfile path must be a normalized relative path".to_owned())),
            "{bad}"
        );
    }
}

#[test]
fn string_sets_are_distinct_and_bounded() {
    assert!(validate_string_set("repositories", &strings(&["a", "b"])).is_ok());
    assert_eq!(
        validate_string_set("repositories", &strings(&["a", "a"])),
        Err(StoreError::InvalidDiscovery("repositories contains duplicates".to_owned()))
    );
    assert_eq!(
        validate_string_set("repositories", &strings(&["a", "b\n"])),
        Err(StoreError::InvalidDiscovery("repositories is outside its bounds".to_owned()))
    );
    let wide: Vec<String> = (0..200).map(|i| format!("{i:0>400}")).collect();
    assert_eq!(
        validate_string_set("repositories", &wide),
        Err(StoreError::InvalidDiscovery("repositories exceeds its serialized size bound".to_owned()))
    );
}

#[test]
fn parent_writes_check_every_binding() {
    assert_eq!(validate_parent_write(&parent_write()), Ok(()));
    let mut provider = parent_write();
    provider.provider = "svn".to_owned();
    assert_eq!(
        validate_parent_write(&provider),
        Err(StoreError::InvalidDiscovery("discovery provider is unsupported".to_owned()))
    );
    let mut zero = parent_write();
    zero.trigger_configuration_sha256 = [0; 32];
    assert_eq!(
        validate_parent_write(&zero),
        Err(StoreError::InvalidDiscovery("trigger configuration digest cannot be all zeroes".to_owned()))
    );
    let mut folder = parent_write();
    folder.kind = DiscoveryParentKind::OrganizationFolder;
    assert_eq!(
        validate_parent_write(&folder),
        Err(StoreError::InvalidDiscovery(
            "organization-folder discovery requires an organization identity".to_owned()
        ))
    );
    let mut forks = parent_write();
    forks.fork_trust_strategy = ForkTrustStrategy::All;
    assert_eq!(
        validate_parent_write(&forks),
        Err(StoreError::InvalidDiscovery(
            "named trusted forks require the named-repositories trust strategy".to_owned()
        ))
    );
}

#[test]
fn scans_check_their_source_and_observations() {
    let scan = DiscoveryScanWrite {
        organization_id: 1,
        project_id: 2,
        pipeline_id: 3,
        parent_id: 4,
        expected_parent_generation: 1,
        scan_id: "scan-1".to_owned(),
        source: DiscoveryScanSource::Periodic,
        source_event_id: None,
        source_cursor: 5,
        complete_snapshot: true,
        provider_snapshot_sha256: [1; 32],
        observations: vec![
            observation("main", DiscoveredRefKind::Branch, "main", "org/app"),
            observation("pr-7", DiscoveredRefKind::PullRequest, "feature", "friend/app"),
        ],
        expected_request_sha256: [2; 32],
        actor_subject: "scanner".to_owned(),
    };
    assert_eq!(validate_scan(&scan), Ok(()));
    let mut webhook = scan.clone();
    webhook.source = DiscoveryScanSource::Webhook;
    assert!(validate_scan(&webhook).is_err());
    let mut repeated = scan.clone();
    repeated.observations[1].child_key = "main".to_owned();
    assert_eq!(
        validate_scan(&repeated),
        Err(StoreError::InvalidDiscovery("discovery scan repeats a child identity".to_owned()))
    );
    let mut revision = observation("main", DiscoveredRefKind::Branch, "main", "org/app");
    revision.revision = "xyz1234".to_owned();
    assert_eq!(
        validate_observation(&revision),
        Err(StoreError::InvalidDiscovery(
            "discovered revision must be a 7-128 character hexadecimal object identity".to_owned()
        ))
    );
}

#[test]
fn observations_are_classified_against_the_parent() {
    let p = parent(1, DiscoveryParentState::Enabled);
    let refs = vec![
        observation("main", DiscoveredRefKind::Branch, "main", "org/app"),
        observation("old", DiscoveredRefKind::Branch, "release/old-1", "org/app"),
        observation("pr-friend", DiscoveredRefKind::PullRequest, "release/7", "friend/app"),
        observation("pr-stranger", DiscoveredRefKind::PullRequest, "release/8", "stranger/app"),
    ];
    let evaluated = evaluate_observations(&p, &refs).unwrap();
    assert_eq!(
        evaluated,
        vec![
            (true, DiscoveryObservationDisposition::Active),
            (false, DiscoveryObservationDisposition::Filtered),
            (true, DiscoveryObservationDisposition::Active),
            (false, DiscoveryObservationDisposition::Quarantined),
        ]
    );
    let forked_branch = vec![observation("x", DiscoveredRefKind::Branch, "main", "friend/app")];
    assert_eq!(
        evaluate_observations(&p, &forked_branch),
        Err(StoreError::InvalidDiscovery("branch observation cannot substitute a fork head repository".to_owned()))
    );
    assert!(matches_branch_filters(&p, "release/2"));
    assert!(!matches_branch_filters(&p, "release/old"));
    assert!(!matches_branch_filters(&p, "feature"));
}

#[test]
fn behavior_comparison_ignores_state_and_input_order() {
    let enabled = parent(1, DiscoveryParentState::Enabled);
    let quiesced = parent(2, DiscoveryParentState::Quiesced);
    assert!(same_parent_behavior(&enabled, &quiesced));
    let mut write = parent_write();
    write.repositories = strings(&["org/lib", "org/app"]);
    assert!(same_parent_behavior_write(&write, &enabled));
    write.jenkinsfile_path = "Jenkinsfile".to_owned();
    assert!(!same_parent_behavior_write(&write, &enabled));
    let o = observation("main", DiscoveredRefKind::Branch, "main", "org/app");
    let existing = (
        "main".to_owned(),
        o.child_pipeline_id,
        "org/app".to_owned(),
        "branch".to_owned(),
        "main".to_owned(),
        None,
        "org/app".to_owned(),
        false,
    );
    assert!(discovery_identity_matches(&existing, &o, false));
    assert!(!discovery_identity_matches(&existing, &o, true));
}

#[test]
fn parent_queries_select_a_generation() {
    let q = parent_select("d.current_generation", true);
    assert!(q.contains("AND v.generation = d.current_generation"));
    assert!(q.ends_with("AND d.parent_id = $4 AND v.idempotency_key = $5"));
    assert!(parent_select("$5", false).ends_with("AND d.parent_id = $4"));
    assert_eq!(digest_array(&[1u8; 32]), Ok([1u8; 32]));
    assert!(digest_array(&[1u8; 3]).is_err());
}

fn snapshot() -> DiscoveryTransferSnapshot {
    let scan = DiscoveryScanRecord {
        organization_id: 1,
        project_id: 2,
        pipeline_id: 3,
        parent_id: 4,
        parent_generation: 1,
        scan_id: "scan-1".to_owned(),
        source: DiscoveryScanSource::Periodic,
        source_event_id: None,
        source_cursor: 5,
        complete_snapshot: true,
        provider_snapshot_sha256: [1; 32],
        request_sha256: [2; 32],
        observation_count: 1,
        selected_count: 1,
        active_count: 1,
        quarantined_count: 0,
        retired_count: 0,
        actor_subject: "scanner".to_owned(),
        audit_sequence: 3,
        audit_event_hash: [9; 32],
    };
    let observation = DiscoveryObservation {
        organization_id: 1,
        project_id: 2,
        pipeline_id: 3,
        parent_id: 4,
        scan_id: "scan-1".to_owned(),
        child_key: "main".to_owned(),
        child_pipeline_id: 40,
        repository_identity: "org/app".to_owned(),
        ref_kind: DiscoveredRefKind::Branch,
        ref_name: "main".to_owned(),
        pull_request_number: None,
        head_repository_identity: "org/app".to_owned(),
        is_fork: false,
        present: true,
        trusted: true,
        authorized: true,
        disposition: DiscoveryObservationDisposition::Active,
        revision: "abcdef0".to_owned(),
        provenance_sha256: [1; 32],
        jenkinsfile_path: "ci/Jenkinsfile".to_owned(),
        jenkinsfile_sha256: [2; 32],
        child_configuration_sha256: [3; 32],
        observation_sha256: [4; 32],
    };
    let child = DiscoveryChild {
        organization_id: 1,
        project_id: 2,
        pipeline_id: 3,
        parent_id: 4,
        child_key: "main".to_owned(),
        child_pipeline_id: 40,
        repository_identity: "org/app".to_owned(),
        ref_kind: DiscoveredRefKind::Branch,
        ref_name: "main".to_owned(),
        pull_request_number: None,
        head_repository_identity: "org/app".to_owned(),
        is_fork: false,
        state: DiscoveryChildState::Active,
        state_generation: 1,
        revision: "abcdef0".to_owned(),
        provenance_sha256: [1; 32],
        jenkinsfile_path: "ci/Jenkinsfile".to_owned(),
        jenkinsfile_sha256: [2; 32],
        child_configuration_sha256: [3; 32],
        parent_generation: 1,
        source_cursor: 5,
        last_scan_id: "scan-1".to_owned(),
    };
    let ledger = [0x5a; 32];
    let ledger_hex: String = ledger.iter().map(|b| format!("{b:02x}")).collect();
    let mut handoff = AuditEvent {
        sequence: 10,
        event_id: 77,
        category: "discovery".to_owned(),
        actor_subject: "admin".to_owned(),
        action: "discovery.handoff.exported".to_owned(),
        subject: "parent:4".to_owned(),
        payload: format!("{{\"ledger_sha256\":\"{ledger_hex}\"}}").into_bytes(),
        occurred_at_unix_ms: 1_000,
        previous_hash: [6; 32],
        event_hash: [0; 32],
    };
    handoff.event_hash = compute_audit_event_hash(1, &handoff);
    DiscoveryTransferSnapshot {
        schema_version: 1,
        organization_id: 1,
        project_id: 2,
        pipeline_id: 3,
        parent_id: 4,
        current_generation: 2,
        versions: vec![parent(1, DiscoveryParentState::Enabled), parent(2, DiscoveryParentState::Quiesced)],
        scans: vec![scan],
        observations: vec![observation],
        children: vec![child],
        ledger_sha256: ledger,
        audit_sequence: 10,
        audit_event_hash: handoff.event_hash,
        handoff_audit_event: handoff,
        state_sha256: [0x6b; 32],
    }
}

#[test]
fn a_consistent_transfer_verifies() {
    let s = snapshot();
    let trusted = s.audit_event_hash;
    assert_eq!(verify_discovery_transfer_snapshot(&s, trusted, [0x5a; 32], [0x6b; 32]), Ok(()));
}

#[test]
fn transfers_reject_substitution() {
    let s = snapshot();
    let trusted = s.audit_event_hash;
    assert_eq!(
        verify_discovery_transfer_snapshot(&s, [0; 32], [0x5a; 32], [0x6b; 32]),
        Err(StoreError::DiscoveryConflict(
            "discovery transfer does not match the independently retained audit anchor".to_owned()
        ))
    );
    assert_eq!(
        verify_discovery_transfer_snapshot(&s, trusted, [0x5b; 32], [0x6b; 32]),
        Err(StoreError::DiscoveryConflict("discovery transfer digest or audit commitment was substituted".to_owned()))
    );
    let mut counts = snapshot();
    counts.scans[0].active_count = 2;
    assert_eq!(
        verify_discovery_transfer_snapshot(&counts, trusted, [0x5a; 32], [0x6b; 32]),
        Err(StoreError::DiscoveryConflict(
            "discovery transfer current child counts do not match the latest scan".to_owned()
        ))
    );
    let mut lineage = snapshot();
    lineage.versions[0].generation = 5;
    assert_eq!(
        verify_discovery_transfer_snapshot(&lineage, trusted, [0x5a; 32], [0x6b; 32]),
        Err(StoreError::DiscoveryConflict(
            "discovery transfer version lineage is incomplete or substituted".to_owned()
        ))
    );
    let mut tampered = snapshot();
    tampered.handoff_audit_event.subject = "parent:5".to_owned();
    assert_eq!(
        verify_discovery_transfer_snapshot(&tampered, trusted, [0x5a; 32], [0x6b; 32]),
        Err(StoreError::DiscoveryConflict("discovery transfer handoff audit event hash is invalid".to_owned()))
    );
}

#[test]
fn scan_replays_and_cursors_are_checked() {
    assert_eq!(check_scan_replay(&[1; 32], &[1; 32], false), Ok(()));
    assert_eq!(
        check_scan_replay(&[1; 32], &[2; 32], false),
        Err(StoreError::DiscoveryConflict("discovery scan identity was reused for different content".to_owned()))
    );
    assert_eq!(
        check_scan_replay(&[1; 32], &[2; 32], true),
        Err(StoreError::DiscoveryConflict("discovery source event was replayed with different content".to_owned()))
    );
    assert_eq!(check_scan_cursor(5, 6), Ok(()));
    assert_eq!(
        check_scan_cursor(5, 5),
        Err(StoreError::DiscoveryConflict("discovery source cursor is duplicate or reordered".to_owned()))
    );
}

#[test]
fn scans_need_the_planned_enabled_parent() {
    let p = parent(3, DiscoveryParentState::Enabled);
    assert_eq!(check_scan_parent(&p, 3), Ok(()));
    assert_eq!(
        check_scan_parent(&p, 2),
        Err(StoreError::DiscoveryConflict(
            "discovery parent generation changed before scan reconciliation".to_owned()
        ))
    );
    let q = parent(3, DiscoveryParentState::Quiesced);
    assert_eq!(check_scan_parent(&q, 3), Err(StoreError::DiscoveryQuiesced { parent_id: 4, generation: 3 }));
}

#[test]
fn reconciled_observations_update_children() {
    let evaluated = vec![
        (true, DiscoveryObservationDisposition::Active),
        (false, DiscoveryObservationDisposition::Filtered),
        (false, DiscoveryObservationDisposition::Quarantined),
    ];
    assert_eq!(selected_observation_count(&evaluated), 2);
    let refs = vec![
        observation("main", DiscoveredRefKind::Branch, "main", "org/app"),
        observation("old", DiscoveredRefKind::Branch, "release/old-1", "org/app"),
        observation("pr-stranger", DiscoveredRefKind::PullRequest, "release/8", "stranger/app"),
    ];
    assert_eq!(retained_child_keys(&refs, &evaluated), strings(&["main", "pr-stranger"]));
    assert_eq!(
        child_update(DiscoveryObservationDisposition::Filtered, true),
        Some(DiscoveryObservationDisposition::Absent)
    );
    assert_eq!(child_update(DiscoveryObservationDisposition::Filtered, false), None);
    assert_eq!(
        child_update(DiscoveryObservationDisposition::Quarantined, false),
        Some(DiscoveryObservationDisposition::Quarantined)
    );
    assert_eq!(child_state_for(DiscoveryObservationDisposition::Absent), Ok(DiscoveryChildState::Retired));
    assert_eq!(
        child_state_for(DiscoveryObservationDisposition::Filtered),
        Err(StoreError::InvalidDiscovery("filtered observation cannot materialize a discovery child".to_owned()))
    );
    assert_eq!(scan_receipt_counts(1, 2, 3, 4), Ok((1, 2, 3, 4)));
    assert_eq!(
        scan_receipt_counts(1, 2, i64::from(i32::MAX) + 1, 4),
        Err(StoreError::InvalidDiscovery("retired child count overflow".to_owned()))
    );
    assert_eq!(
        scan_receipt_counts(1, 2, 3, i32::MAX as usize + 1),
        Err(StoreError::InvalidDiscovery("selected observation count overflow".to_owned()))
    );
}

#[test]
fn parent_puts_plan_their_generation() {
    assert_eq!(plan_parent_generation(None, 0), Ok(ParentGenerationPlan::Create));
    assert_eq!(plan_parent_generation(None, 2), Ok(ParentGenerationPlan::Stale { current_generation: 0 }));
    assert_eq!(plan_parent_generation(Some(3), 2), Ok(ParentGenerationPlan::Stale { current_generation: 3 }));
    assert_eq!(plan_parent_generation(Some(3), 3), Ok(ParentGenerationPlan::Revise { generation: 4 }));
    assert_eq!(
        plan_parent_generation(Some(i64::MAX), i64::MAX),
        Err(StoreError::InvalidDiscovery("discovery generation overflow".to_owned()))
    );
    assert_eq!(check_parent_restore(None, 4, false), Ok(()));
    assert_eq!(check_parent_restore(Some(2), 4, true), Ok(()));
    assert_eq!(
        check_parent_restore(Some(4), 4, true),
        Err(StoreError::InvalidDiscovery("discovery rollback source generation is not retained".to_owned()))
    );
}

#[test]
fn parent_replays_must_repeat_the_stored_version() {
    let stored = parent(2, DiscoveryParentState::Enabled);
    let mut write = parent_write();
    write.expected_generation = 1;
    assert_eq!(check_parent_replay(&stored, &write, &[2; 32]), Ok(()));
    assert_eq!(
        check_parent_replay(&stored, &write, &[9; 32]),
        Err(StoreError::DiscoveryConflict(
            "discovery parent idempotency key was reused for different content".to_owned()
        ))
    );
    write.reason = "other".to_owned();
    assert!(check_parent_replay(&stored, &write, &[2; 32]).is_err());
}

#[test]
fn quiescing_is_a_state_only_step_after_the_latest_scan() {
    let previous = parent(2, DiscoveryParentState::Enabled);
    let mut write = parent_write();
    write.state = DiscoveryParentState::Quiesced;
    assert_eq!(check_parent_quiesce(&write, &Some(previous.clone()), Some(2)), Ok(()));
    assert_eq!(
        check_parent_quiesce(&write, &None, Some(2)),
        Err(StoreError::InvalidDiscovery("discovery parent must reconcile before it can be quiesced".to_owned()))
    );
    let refused = Err(StoreError::DiscoveryConflict(
        "quiescence must be a state-only transition from the latest reconciled enabled generation".to_owned(),
    ));
    assert_eq!(check_parent_quiesce(&write, &Some(previous.clone()), Some(1)), refused);
    assert_eq!(check_parent_quiesce(&write, &Some(previous.clone()), None), refused);
    write.jenkinsfile_path = "Jenkinsfile".to_owned();
    assert_eq!(check_parent_quiesce(&write, &Some(previous.clone()), Some(2)), refused);
}

#[test]
fn canonical_digest_is_the_sha256_of_the_json() {
    let hex: String = canonical_sha256(b"{}").iter().map(|b| format!("{b:02x}")).collect();
    assert_eq!(hex, "44136fa355b3678a1146ad16f7e8649e94fb4fc21fe77e8310c060f61caaff8a");
}

fn webhook(generation: i64, digest: [u8; 32]) -> Option<StoredTrigger> {
    Some(StoredTrigger {
        generation,
        kind: "scm_webhook".to_owned(),
        state: "enabled".to_owned(),
        configuration_sha256: digest.to_vec(),
        event_source_identity: "github.com".to_owned(),
        provider: "github".to_owned(),
    })
}

#[test]
fn a_parent_write_binds_its_pipeline_policy_and_trigger() {
    let write = parent_write();
    let policy = Some((1, vec![4; 32]));
    let conflict = |m: &str| Err(StoreError::DiscoveryConflict(m.to_owned()));
    assert_eq!(check_parent_dependencies(&write, true, &policy, &webhook(1, [5; 32])), Ok(()));
    assert_eq!(
        check_parent_dependencies(&write, false, &policy, &webhook(1, [5; 32])),
        conflict("discovery parent does not identify a saved pipeline")
    );
    assert_eq!(
        check_parent_dependencies(&write, true, &None, &webhook(1, [5; 32])),
        conflict("discovery parent requires an installed authorization policy")
    );
    assert_eq!(
        check_parent_dependencies(&write, true, &Some((2, vec![4; 32])), &webhook(1, [5; 32])),
        conflict("discovery authorization generation or digest was substituted")
    );
    assert_eq!(
        check_parent_dependencies(&write, true, &Some((1, vec![4; 31])), &webhook(1, [5; 32])),
        Err(StoreError::InvalidDiscovery("stored digest has an invalid length".to_owned()))
    );
    assert_eq!(
        check_parent_dependencies(&write, true, &policy, &None),
        conflict("discovery parent requires a saved SCM webhook trigger")
    );
    let mut disabled = webhook(1, [5; 32]);
    disabled.as_mut().unwrap().state = "disabled".to_owned();
    assert_eq!(
        check_parent_dependencies(&write, true, &policy, &disabled),
        conflict(
            "discovery trigger generation, configuration, state, provider, or provider identity was substituted"
        )
    );
}

#[test]
fn a_scan_needs_the_authorities_its_parent_was_saved_against() {
    let saved = parent(1, DiscoveryParentState::Enabled);
    let policy = Some((1, vec![4; 32]));
    assert_eq!(check_live_authorities(&saved, &policy, &webhook(1, [5; 32])), Ok(()));
    assert_eq!(
        check_live_authorities(&saved, &Some((2, vec![4; 32])), &webhook(1, [5; 32])),
        Err(StoreError::DiscoveryConflict(
            "discovery authorization authority drifted before reconciliation".to_owned()
        ))
    );
    assert_eq!(
        check_live_authorities(&saved, &policy, &webhook(1, [6; 32])),
        Err(StoreError::DiscoveryConflict("discovery trigger authority drifted before reconciliation".to_owned()))
    );
}

#[test]
fn stored_scan_sources_parse_back() {
    assert_eq!(DiscoveryScanSource::parse("periodic"), Ok(DiscoveryScanSource::Periodic));
    assert_eq!(
        DiscoveryScanSource::parse("manual"),
        Err(StoreError::InvalidDiscovery("stored discovery scan source 'manual' is invalid".to_owned()))
    );
}

#[test]
fn observed_children_must_keep_their_identity() {
    let o = observation("main", DiscoveredRefKind::Branch, "main", "org/app");
    let same = (
        o.child_key.clone(),
        o.child_pipeline_id,
        o.repository_identity.clone(),
        "branch".to_owned(),
        o.ref_name.clone(),
        None,
        o.head_repository_identity.clone(),
        false,
    );
    assert_eq!(check_observation_identity(false, &vec![same.clone()], &o), Ok(()));
    assert_eq!(check_observation_identity(false, &Vec::new(), &o), Ok(()));
    assert_eq!(
        check_observation_identity(true, &Vec::new(), &o),
        Err(StoreError::DiscoveryConflict(
            "discovery observation key or pipeline identity was substituted".to_owned()
        ))
    );
    let mut moved = same.clone();
    moved.1 += 1;
    let child_conflict = Err(StoreError::DiscoveryConflict(
        "discovery child key or pipeline identity was substituted".to_owned(),
    ));
    assert_eq!(check_observation_identity(false, &vec![moved], &o), child_conflict);
    assert_eq!(check_observation_identity(false, &vec![same.clone(), same], &o), child_conflict);
}

#[test]
fn complete_snapshots_retire_orphans_only_under_the_retire_policy() {
    let mut scan = DiscoveryScanWrite {
        organization_id: 1,
        project_id: 2,
        pipeline_id: 3,
        parent_id: 4,
        expected_parent_generation: 1,
        scan_id: "s".to_owned(),
        source: DiscoveryScanSource::Periodic,
        source_event_id: None,
        source_cursor: 1,
        complete_snapshot: true,
        provider_snapshot_sha256: [1; 32],
        observations: Vec::new(),
        expected_request_sha256: [2; 32],
        actor_subject: "admin".to_owned(),
    };
    let mut p = parent(1, DiscoveryParentState::Enabled);
    p.orphan_policy = OrphanPolicy::Retire;
    assert!(retires_orphans(&scan, &p));
    p.orphan_policy = OrphanPolicy::Retain;
    assert!(!retires_orphans(&scan, &p));
    p.orphan_policy = OrphanPolicy::Retire;
    scan.complete_snapshot = false;
    assert!(!retires_orphans(&scan, &p));
}
