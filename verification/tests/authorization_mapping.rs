use mcloving_controller_store::authorization_mapping::{
    check_authorization_policy_write, check_target_identity, compute_authorization_policy_digest,
    compute_mapping_digest, confirm_rollback_source, grant_count, normalized_permission,
    plan_authorization_install, policy_audit_action, source_actions, validate_mapping,
    validate_policy, AuthorizationPolicyWrite, AuthorizationPrincipalMappingWrite,
    TargetIdentityRecord,
};
use mcloving_controller_store::authz::{Action, GrantDecision};
use mcloving_controller_store::StoreError;

fn mapping(id: u128, permissions: &[&str], decisions: Vec<(Action, GrantDecision)>) -> AuthorizationPrincipalMappingWrite {
    AuthorizationPrincipalMappingWrite {
        mapping_id: id,
        target_identity_id: 100 + id,
        source_identity_id: format!("jenkins-user-{id}"),
        source_alias_history: br#"["old-name"]"#.to_vec(),
        source_membership_generation: 1,
        source_lifecycle_state: "active".to_owned(),
        source_acl_entry_id: "entry".to_owned(),
        source_acl_scope: "folder/app".to_owned(),
        source_acl_generation: "g1".to_owned(),
        source_permissions: permissions.iter().map(|p| (*p).to_owned()).collect(),
        target_provider_id: None,
        target_external_subject: None,
        target_lifecycle_generation: 1,
        target_group_generation: 1,
        target_provenance_digest: [4; 32],
        resulting_role: "developer".to_owned(),
        decisions,
    }
}

fn policy(mappings: Vec<AuthorizationPrincipalMappingWrite>) -> AuthorizationPolicyWrite {
    AuthorizationPolicyWrite {
        organization_id: 1,
        project_id: 2,
        generation: 1,
        expected_current_generation: None,
        source_realm_implementation: "matrix-auth".to_owned(),
        source_realm_digest: [5; 32],
        source_inventory_digest: [6; 32],
        reviewer: "dana".to_owned(),
        actor_subject: "admin".to_owned(),
        restored_from_generation: None,
        mappings,
        expected_policy_digest: [0; 32],
    }
}

#[test]
fn permissions_normalize_before_mapping() {
    assert_eq!(normalized_permission("  Job/Read "), "job.read");
    assert_eq!(normalized_permission("Run/Artifacts"), "run.artifacts");
    assert_eq!(normalized_permission("\u{2003}Overall/Administer"), "overall.administer");
    let actions = source_actions(&vec!["Job/Build".to_owned(), "item.read".to_owned(), "run/logs".to_owned(), "unknown".to_owned()]);
    assert_eq!(actions, vec![Action::ProjectView, Action::BuildTrigger, Action::LogRead]);
}

#[test]
fn allow_decisions_never_broaden_the_source_acl() {
    let ok = mapping(1, &["job/read"], vec![(Action::ProjectView, GrantDecision::Allow)]);
    assert_eq!(validate_mapping(&ok), Ok(()));
    let broad = mapping(1, &["job/read"], vec![(Action::BuildTrigger, GrantDecision::Allow)]);
    assert_eq!(
        validate_mapping(&broad),
        Err(StoreError::InvalidAuthorizationOperation(
            "target allow decision broadens the source Jenkins ACL".to_owned()
        ))
    );
    let deny = mapping(1, &["job/read"], vec![(Action::BuildTrigger, GrantDecision::Deny)]);
    assert_eq!(validate_mapping(&deny), Ok(()));
    let admin = mapping(1, &["overall/administer"], vec![(Action::SecretUse, GrantDecision::Allow)]);
    assert_eq!(validate_mapping(&admin), Ok(()));
}

#[test]
fn scheduler_control_and_inactive_sources_are_refused() {
    let scheduler = mapping(1, &["overall/administer"], vec![(Action::SchedulerControl, GrantDecision::Deny)]);
    assert_eq!(
        validate_mapping(&scheduler),
        Err(StoreError::InvalidAuthorizationOperation(
            "Jenkins ACL mappings cannot grant scheduler control".to_owned()
        ))
    );
    let mut disabled = mapping(1, &["job/read"], vec![(Action::ProjectView, GrantDecision::Allow)]);
    disabled.source_lifecycle_state = "disabled".to_owned();
    assert_eq!(
        validate_mapping(&disabled),
        Err(StoreError::InvalidAuthorizationOperation(
            "inactive source principals cannot produce target allow decisions".to_owned()
        ))
    );
    let mut object = mapping(1, &["job/read"], vec![(Action::ProjectView, GrantDecision::Allow)]);
    object.source_alias_history = br#"{"name":"x"}"#.to_vec();
    assert_eq!(
        validate_mapping(&object),
        Err(StoreError::InvalidAuthorizationOperation("source alias history must be a JSON array".to_owned()))
    );
}

#[test]
fn policy_mapping_ids_must_be_unique() {
    let decisions = vec![(Action::ProjectView, GrantDecision::Allow)];
    let input = policy(vec![mapping(7, &["job/read"], decisions.clone()), mapping(7, &["job/read"], decisions)]);
    assert_eq!(
        validate_policy(&input),
        Err(StoreError::InvalidAuthorizationOperation(
            "authorization mapping identifiers must be unique".to_owned()
        ))
    );
}

#[test]
fn policy_digest_orders_mappings_by_identifier() {
    let decisions = vec![(Action::ProjectView, GrantDecision::Allow)];
    let a = mapping(3, &["job/read"], decisions.clone());
    let b = mapping(9, &["job/read"], decisions);
    let forward = policy(vec![a.clone(), b.clone()]);
    let backward = policy(vec![b.clone(), a.clone()]);
    assert_eq!(
        compute_authorization_policy_digest(&forward).unwrap(),
        compute_authorization_policy_digest(&backward).unwrap()
    );
    assert_ne!(compute_mapping_digest(&a), compute_mapping_digest(&b));
    let mut checked = forward.clone();
    assert!(check_authorization_policy_write(&checked).is_err());
    checked.expected_policy_digest = compute_authorization_policy_digest(&checked).unwrap();
    assert_eq!(check_authorization_policy_write(&checked), Ok(checked.expected_policy_digest));
    assert_eq!(grant_count(&forward), Some(2));
    assert_eq!(policy_audit_action(&forward), "policy_installed");
}

#[test]
fn install_plans_advance_by_one_and_restore_older_generations() {
    let mut input = policy(Vec::new());
    assert_eq!(plan_authorization_install(&input, None), Ok(None));
    input.generation = 4;
    input.expected_current_generation = Some(3);
    input.restored_from_generation = Some(2);
    assert_eq!(plan_authorization_install(&input, Some(3)), Ok(Some(2)));
    assert_eq!(policy_audit_action(&input), "policy_rolled_back");
    input.restored_from_generation = Some(4);
    assert!(plan_authorization_install(&input, Some(3)).is_err());
    assert!(matches!(
        plan_authorization_install(&input, Some(2)),
        Err(StoreError::AuthorizationConflict(_))
    ));
    assert!(confirm_rollback_source(true).is_ok());
    assert!(confirm_rollback_source(false).is_err());
}

#[test]
fn target_identities_must_match_their_binding() {
    let input = policy(Vec::new());
    let m = mapping(1, &["job/read"], vec![(Action::ProjectView, GrantDecision::Allow)]);
    let service = TargetIdentityRecord {
        kind: "service".to_owned(),
        lifecycle_state: "active".to_owned(),
        lifecycle_generation: 1,
        provider_id: None,
        external_subject: None,
        group_generation: 1,
        source_realm_digest: None,
        source_identity_id: None,
        source_membership_generation: None,
        alias_history: b"[]".to_vec(),
        provenance_digest: None,
    };
    assert_eq!(check_target_identity(&input, &m, &service), Ok(()));
    let mut human = service.clone();
    human.kind = "human".to_owned();
    assert_eq!(
        check_target_identity(&input, &m, &human),
        Err(StoreError::InvalidAuthorizationOperation(
            "authorization human identity provenance does not match IDP truth".to_owned()
        ))
    );
    human.source_realm_digest = Some(vec![5; 32]);
    human.source_identity_id = Some("jenkins-user-1".to_owned());
    human.source_membership_generation = Some(1);
    human.alias_history = br#"["old-name"]"#.to_vec();
    human.provenance_digest = Some(vec![4; 32]);
    assert_eq!(check_target_identity(&input, &m, &human), Ok(()));
    let mut stale = service;
    stale.lifecycle_generation = 2;
    assert!(check_target_identity(&input, &m, &stale).is_err());
}
