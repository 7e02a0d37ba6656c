use mcloving_controller_store::admin_migration::{
    admin_audit_action, check_external_admin_client_write, check_target_authority, check_target_identity,
    compute_external_admin_client_binding_digest,
    compute_external_admin_client_digest, plan_external_admin_install, required_admin_actions,
    validate_input, validate_transition, ExternalAdminAuthority, ExternalAdminClientWrite,
    ExternalAdminDisposition, ExternalAdminOperation, ExternalAdminOperationContract,
};
use std::collections::{BTreeMap, BTreeSet};

use mcloving_controller_store::authz::{Action, Principal, PrincipalKind, ProjectRole};
use mcloving_controller_store::StoreError;

fn contract(operation: ExternalAdminOperation) -> ExternalAdminOperationContract {
    match operation.admitted_contract() {
        Some((method, endpoint, precondition, idempotency, _)) => ExternalAdminOperationContract {
            operation,
            disposition: ExternalAdminDisposition::McLovingV1,
            method: Some(method.to_owned()),
            endpoint: Some(endpoint.to_owned()),
            precondition: Some(precondition.to_owned()),
            idempotency: Some(idempotency.to_owned()),
            desired_state_schema: Some("mcloving.public-api/v1".to_owned()),
            retirement_evidence_digest: None,
        },
        None => ExternalAdminOperationContract {
            operation,
            disposition: ExternalAdminDisposition::OwnerRetired,
            method: None,
            endpoint: None,
            precondition: None,
            idempotency: None,
            desired_state_schema: None,
            retirement_evidence_digest: Some([5; 32]),
        },
    }
}

fn write() -> ExternalAdminClientWrite {
    ExternalAdminClientWrite {
        organization_id: 11,
        project_id: 12,
        client_id: "deployer".to_owned(),
        generation: 1,
        expected_current_generation: None,
        authority: ExternalAdminAuthority::JenkinsSource,
        source_inventory_digest: [1; 32],
        source_inventory_generation: "inventory-7".to_owned(),
        source_endpoint: "https://jenkins.example".to_owned(),
        source_caller: "deploy-bot".to_owned(),
        source_authentication: "token".to_owned(),
        source_scope: "folder/app".to_owned(),
        target_identity_id: 13,
        target_subject: "service:deployer".to_owned(),
        target_api_base: "https://mcloving.example".to_owned(),
        target_api_version: "v1".to_owned(),
        operation_contracts: ExternalAdminOperation::all().into_iter().map(contract).collect(),
        observation_started_unix_ms: 100,
        observation_ended_unix_ms: 200,
        source_writes_observed: 3,
        positive_authorization_digest: [2; 32],
        negative_authorization_digest: [3; 32],
        convergence_digest: [4; 32],
        ordering_idempotency_digest: [6; 32],
        partial_failure_retry_digest: [7; 32],
        conflict_digest: [8; 32],
        rollback_from_generation: None,
        rollback_evidence_digest: None,
        reviewer: "dana".to_owned(),
        actor_subject: "admin".to_owned(),
        expected_contract_digest: [0; 32],
    }
}

#[test]
fn a_complete_classification_is_accepted() {
    assert_eq!(validate_input(&write()), Ok(()));
}

#[test]
fn every_operation_must_be_classified_once() {
    let mut missing = write();
    missing.operation_contracts.pop();
    assert_eq!(
        validate_input(&missing),
        Err(StoreError::InvalidAdminMigration(
            "external admin client must classify every canonical write operation exactly once".to_owned()
        ))
    );
    let mut doubled = write();
    doubled.operation_contracts[0] = contract(ExternalAdminOperation::QueueReorder);
    assert!(validate_input(&doubled).is_err());
}

#[test]
fn operations_without_a_v1_contract_cannot_claim_one() {
    let mut input = write();
    let index = input
        .operation_contracts
        .iter()
        .position(|c| c.operation == ExternalAdminOperation::NodeMutate)
        .unwrap();
    input.operation_contracts[index].disposition = ExternalAdminDisposition::McLovingV1;
    input.operation_contracts[index].retirement_evidence_digest = None;
    assert_eq!(
        validate_input(&input),
        Err(StoreError::InvalidAdminMigration(
            "unsupported admin operation cannot claim a McLoving v1 mapping".to_owned()
        ))
    );
}

#[test]
fn text_fields_are_checked_in_order() {
    let mut input = write();
    input.source_caller = " bot".to_owned();
    input.reviewer = String::new();
    assert_eq!(
        validate_input(&input),
        Err(StoreError::InvalidAdminMigration("external admin client source caller is invalid".to_owned()))
    );
    let mut plain = write();
    plain.target_api_base = "ftp://mcloving.example".to_owned();
    assert_eq!(
        validate_input(&plain),
        Err(StoreError::InvalidAdminMigration(
            "source and target endpoints must be explicit HTTP(S) URLs".to_owned()
        ))
    );
}

#[test]
fn authority_alternates_and_cutover_needs_quiescence() {
    let first = write();
    assert_eq!(validate_transition(&first, &None), Ok(()));
    let mut target = write();
    target.authority = ExternalAdminAuthority::McLovingTarget;
    assert!(validate_transition(&target, &None).is_err());
    let jenkins = Some((1, "jenkins_source".to_owned(), true));
    assert_eq!(
        validate_transition(&target, &jenkins),
        Err(StoreError::InvalidAdminMigration(
            "McLoving admin authority requires zero residual Jenkins writes".to_owned()
        ))
    );
    target.source_writes_observed = 0;
    assert_eq!(validate_transition(&target, &jenkins), Ok(()));
    let mut again = write();
    again.authority = ExternalAdminAuthority::JenkinsSource;
    assert_eq!(
        validate_transition(&again, &jenkins),
        Err(StoreError::InvalidAdminMigration("external admin client authority must alternate".to_owned()))
    );
    let mclo = Some((2, "mcloving_target".to_owned(), true));
    again.rollback_from_generation = Some(2);
    again.rollback_evidence_digest = Some([9; 32]);
    assert_eq!(validate_transition(&again, &mclo), Ok(()));
    again.rollback_from_generation = Some(1);
    assert!(validate_transition(&again, &mclo).is_err());
}

#[test]
fn install_plans_check_generations_and_bindings() {
    let first = write();
    assert_eq!(plan_external_admin_install(&first, &None), Ok(()));
    let mut stale = write();
    stale.expected_current_generation = Some(1);
    assert!(matches!(
        plan_external_admin_install(&stale, &None),
        Err(StoreError::AdminMigrationConflict(_))
    ));
    let mut next = write();
    next.generation = 3;
    next.expected_current_generation = Some(1);
    assert_eq!(
        plan_external_admin_install(&next, &Some((1, "jenkins_source".to_owned(), true))),
        Err(StoreError::InvalidAdminMigration(
            "external admin client generation must advance by exactly one".to_owned()
        ))
    );
    next.generation = 2;
    assert_eq!(
        plan_external_admin_install(&next, &Some((1, "jenkins_source".to_owned(), false))),
        Err(StoreError::InvalidAdminMigration(
            "external admin client binding changed across an authority transition".to_owned()
        ))
    );
}

#[test]
fn binding_digest_ignores_dispositions_and_authority() {
    let source = write();
    let mut target = write();
    target.authority = ExternalAdminAuthority::McLovingTarget;
    target.generation = 2;
    target.source_writes_observed = 0;
    let binding = compute_external_admin_client_binding_digest(&source).unwrap();
    assert_eq!(compute_external_admin_client_binding_digest(&target).unwrap(), binding);
    assert_ne!(
        compute_external_admin_client_digest(&source).unwrap(),
        compute_external_admin_client_digest(&target).unwrap()
    );
    let mut moved = write();
    moved.client_id = "other".to_owned();
    assert_ne!(compute_external_admin_client_binding_digest(&moved).unwrap(), binding);
}

#[test]
fn contract_digest_ignores_contract_order() {
    let ordered = write();
    let mut shuffled = write();
    shuffled.operation_contracts.reverse();
    assert_eq!(
        compute_external_admin_client_digest(&ordered).unwrap(),
        compute_external_admin_client_digest(&shuffled).unwrap()
    );
}

#[test]
fn a_write_must_carry_its_canonical_digest() {
    let mut input = write();
    assert_eq!(
        check_external_admin_client_write(&input),
        Err(StoreError::InvalidAdminMigration(
            "external admin client digest does not match canonical content".to_owned()
        ))
    );
    let digest = compute_external_admin_client_digest(&input).unwrap();
    input.expected_contract_digest = digest;
    let (binding, contract) = check_external_admin_client_write(&input).unwrap();
    assert_eq!(contract, digest);
    assert_eq!(binding, compute_external_admin_client_binding_digest(&input).unwrap());
    input.source_writes_observed = u64::MAX;
    input.expected_contract_digest = compute_external_admin_client_digest(&input).unwrap();
    assert_eq!(
        check_external_admin_client_write(&input),
        Err(StoreError::InvalidAdminMigration("source write count overflow".to_owned()))
    );
}

#[test]
fn required_actions_come_in_action_order() {
    assert_eq!(
        required_admin_actions(&write()),
        vec![
            Action::BuildTrigger,
            Action::BuildCancel,
            Action::ProjectConfigure,
            Action::ApprovalAct,
            Action::BuildRetry
        ]
    );
    assert_eq!(admin_audit_action(ExternalAdminAuthority::JenkinsSource, 1), "external_admin_client.registered");
    assert_eq!(admin_audit_action(ExternalAdminAuthority::JenkinsSource, 3), "external_admin_client.rolled_back");
    assert_eq!(admin_audit_action(ExternalAdminAuthority::McLovingTarget, 2), "external_admin_client.cut_over");
}

fn member(role: ProjectRole) -> Principal {
    let mut project_roles = BTreeMap::new();
    project_roles.insert(12, role);
    Principal {
        subject: "service:deployer".into(),
        kind: PrincipalKind::Human,
        organization_id: 11,
        project_roles,
        service_scopes: Vec::new(),
        mapped_projects: BTreeSet::new(),
        action_grants: Vec::new(),
    }
}

#[test]
fn the_target_identity_must_exist_and_be_active_for_a_cut_over() {
    let mut target = write();
    assert_eq!(
        check_target_identity(&target, None),
        Err(StoreError::InvalidAdminMigration(
            "external admin client target identity is absent or substituted".to_owned()
        ))
    );
    assert_eq!(check_target_identity(&target, Some("disabled")), Ok(()));
    target.authority = ExternalAdminAuthority::McLovingTarget;
    assert_eq!(
        check_target_identity(&target, Some("disabled")),
        Err(StoreError::InvalidAdminMigration(
            "external admin client target identity is inactive".to_owned()
        ))
    );
    assert_eq!(check_target_identity(&target, Some("active")), Ok(()));
}

#[test]
fn the_target_identity_needs_every_mapped_action() {
    let input = write();
    assert_eq!(
        check_target_authority(&input, &member(ProjectRole::Viewer)),
        Err(StoreError::InvalidAdminMigration(
            "external admin client target identity lacks required build_trigger authority".to_owned()
        ))
    );
    assert_eq!(
        check_target_authority(&input, &member(ProjectRole::Developer)),
        Err(StoreError::InvalidAdminMigration(
            "external admin client target identity lacks required project_configure authority"
                .to_owned()
        ))
    );
    assert_eq!(check_target_authority(&input, &member(ProjectRole::Admin)), Ok(()));
}
