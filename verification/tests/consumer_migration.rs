use std::collections::{BTreeMap, BTreeSet};

use mcloving_controller_store::authz::{Action, Principal, PrincipalKind, ServiceScope};
use mcloving_controller_store::consumer_migration::{
    check_external_read_consumer_write, check_target_authority, check_target_identity,
    compute_external_read_consumer_binding_digest,
    compute_external_read_consumer_digest, plan_external_read_install, read_audit_action,
    required_read_actions, validate_input, validate_transition, ExternalReadAuthority,
    ExternalReadConsumerWrite, ExternalReadEndpointContract, ExternalReadResource,
};
use mcloving_controller_store::StoreError;

fn contract(resource: ExternalReadResource) -> ExternalReadEndpointContract {
    ExternalReadEndpointContract {
        resource,
        endpoint: resource.endpoint().to_owned(),
        query: resource
            .query_names()
            .into_iter()
            .map(|name| (name.to_owned(), format!("{name} semantics")))
            .collect(),
        pagination: "cursor".to_owned(),
    }
}

fn write() -> ExternalReadConsumerWrite {
    ExternalReadConsumerWrite {
        organization_id: 21,
        project_id: 22,
        consumer_id: "dashboard".to_owned(),
        generation: 1,
        expected_current_generation: None,
        authority: ExternalReadAuthority::JenkinsSource,
        source_inventory_digest: [1; 32],
        source_inventory_generation: "inventory-3".to_owned(),
        source_endpoint: "https://jenkins.example".to_owned(),
        source_caller: "dashboard-bot".to_owned(),
        target_identity_id: 23,
        target_subject: "service:dashboard".to_owned(),
        target_api_base: "https://mcloving.example".to_owned(),
        target_api_version: "v1".to_owned(),
        endpoint_contracts: vec![
            contract(ExternalReadResource::Log),
            contract(ExternalReadResource::BuildStatus),
            contract(ExternalReadResource::ArtifactContent),
        ],
        retention_semantics: "30 days".to_owned(),
        url_semantics: "stable".to_owned(),
        rate_limit_per_minute: 600,
        observation_started_unix_ms: 10,
        observation_ended_unix_ms: 20,
        source_reads_observed: 4,
        positive_authorization_digest: [2; 32],
        negative_authorization_digest: [3; 32],
        equivalence_digest: [4; 32],
        artifact_retrieval_digest: [5; 32],
        pagination_resume_digest: [6; 32],
        outage_behavior_digest: [7; 32],
        rollback_from_generation: None,
        rollback_evidence_digest: None,
        reviewer: "dana".to_owned(),
        actor_subject: "admin".to_owned(),
        expected_contract_digest: [0; 32],
    }
}

#[test]
fn a_canonical_consumer_is_accepted() {
    assert_eq!(validate_input(&write()), Ok(()));
}

#[test]
fn endpoints_must_match_their_resource() {
    let mut input = write();
    input.endpoint_contracts[1].endpoint = ExternalReadResource::Log.endpoint().to_owned();
    assert_eq!(
        validate_input(&input),
        Err(StoreError::InvalidConsumerMigration("external read endpoint does not match its resource".to_owned()))
    );
    let mut query = write();
    query.endpoint_contracts[0].endpoint.push('?');
    assert_eq!(
        validate_input(&query),
        Err(StoreError::InvalidConsumerMigration(
            "external read endpoint must be a query-free /api/v1 path".to_owned()
        ))
    );
}

#[test]
fn query_contracts_must_name_the_resource_parameters() {
    let mut input = write();
    input.endpoint_contracts[0].query.pop();
    assert_eq!(
        validate_input(&input),
        Err(StoreError::InvalidConsumerMigration(
            "external read query contract does not match its resource".to_owned()
        ))
    );
    let mut padded = write();
    padded.endpoint_contracts[0].query[0].1 = " trailing".to_owned();
    assert_eq!(
        validate_input(&padded),
        Err(StoreError::InvalidConsumerMigration("external read consumer query semantics is invalid".to_owned()))
    );
}

#[test]
fn resources_are_unique_and_bounded() {
    let mut doubled = write();
    doubled.endpoint_contracts.push(contract(ExternalReadResource::Log));
    assert_eq!(
        validate_input(&doubled),
        Err(StoreError::InvalidConsumerMigration("external read consumer resources must be unique".to_owned()))
    );
    let mut none = write();
    none.endpoint_contracts.clear();
    assert!(validate_input(&none).is_err());
    let mut flood = write();
    flood.rate_limit_per_minute = 1_000_001;
    assert_eq!(
        validate_input(&flood),
        Err(StoreError::InvalidConsumerMigration(
            "external read consumer rate limit is outside its bounded range".to_owned()
        ))
    );
}

#[test]
fn read_authority_alternates_and_cutover_needs_no_residual_reads() {
    let mut target = write();
    target.authority = ExternalReadAuthority::McLovingTarget;
    let jenkins = Some((1, "jenkins_source".to_owned(), true));
    assert_eq!(
        validate_transition(&target, &jenkins),
        Err(StoreError::InvalidConsumerMigration("McLoving authority requires zero residual Jenkins reads".to_owned()))
    );
    target.source_reads_observed = 0;
    assert_eq!(validate_transition(&target, &jenkins), Ok(()));
    assert!(validate_transition(&target, &None).is_err());
    let mut back = write();
    back.rollback_from_generation = Some(2);
    back.rollback_evidence_digest = Some([8; 32]);
    assert_eq!(validate_transition(&back, &Some((2, "mcloving_target".to_owned(), true))), Ok(()));
}

#[test]
fn binding_ignores_contract_order_and_authority() {
    let a = write();
    let mut b = write();
    b.endpoint_contracts.reverse();
    b.authority = ExternalReadAuthority::McLovingTarget;
    b.source_reads_observed = 0;
    assert_eq!(
        compute_external_read_consumer_binding_digest(&a).unwrap(),
        compute_external_read_consumer_binding_digest(&b).unwrap()
    );
    assert_ne!(
        compute_external_read_consumer_digest(&a).unwrap(),
        compute_external_read_consumer_digest(&b).unwrap()
    );
}

#[test]
fn install_plans_and_digests() {
    let mut input = write();
    assert!(check_external_read_consumer_write(&input).is_err());
    input.expected_contract_digest = compute_external_read_consumer_digest(&input).unwrap();
    assert!(check_external_read_consumer_write(&input).is_ok());
    assert_eq!(plan_external_read_install(&input, &None), Ok(()));
    input.expected_current_generation = Some(4);
    assert!(matches!(
        plan_external_read_install(&input, &None),
        Err(StoreError::ConsumerMigrationConflict(_))
    ));
}

#[test]
fn required_read_actions_are_distinct_and_ordered() {
    assert_eq!(
        required_read_actions(&write()),
        vec![Action::ProjectView, Action::ArtifactRead, Action::LogRead]
    );
    assert_eq!(read_audit_action(ExternalReadAuthority::McLovingTarget, 2), "external_read_consumer.cut_over");
}

fn service(scopes: Vec<ServiceScope>) -> Principal {
    Principal {
        subject: "service:dashboard".into(),
        kind: PrincipalKind::Service,
        organization_id: 21,
        project_roles: BTreeMap::new(),
        service_scopes: scopes,
        mapped_projects: BTreeSet::new(),
        action_grants: Vec::new(),
    }
}

#[test]
fn a_read_cut_over_needs_an_active_target() {
    let mut target = write();
    target.authority = ExternalReadAuthority::McLovingTarget;
    assert_eq!(
        check_target_identity(&target, None),
        Err(StoreError::InvalidConsumerMigration(
            "external read consumer target identity is absent or substituted".to_owned()
        ))
    );
    assert_eq!(
        check_target_identity(&target, Some("retired")),
        Err(StoreError::InvalidConsumerMigration(
            "external read consumer target identity is inactive".to_owned()
        ))
    );
    assert_eq!(check_target_identity(&target, Some("active")), Ok(()));
}

#[test]
fn a_read_target_needs_each_covered_read() {
    let input = write();
    assert_eq!(
        check_target_authority(&input, &service(vec![ServiceScope::BuildSubmit])),
        Err(StoreError::InvalidConsumerMigration(
            "external read consumer target identity lacks required project_view authority"
                .to_owned()
        ))
    );
    assert_eq!(check_target_authority(&input, &service(vec![ServiceScope::ProjectRead])), Ok(()));
    let mut elsewhere = service(vec![ServiceScope::ProjectRead]);
    elsewhere.organization_id = 99;
    assert!(check_target_authority(&input, &elsewhere).is_err());
}
