use std::collections::{BTreeMap, BTreeSet};

use mcloving_controller_store::authz::{
    authorize, Action, AuthorizationDenied, GrantDecision, Principal, PrincipalKind, ProjectRole,
    ServiceScope,
};
use uuid::Uuid;

fn id() -> u128 {
    Uuid::new_v4().as_u128()
}

fn human(role: ProjectRole, organization_id: u128, project_id: u128) -> Principal {
    let mut project_roles = BTreeMap::new();
    project_roles.insert(project_id, role);
    Principal {
        subject: "oidc:person".into(),
        kind: PrincipalKind::Human,
        organization_id,
        project_roles,
        service_scopes: Vec::new(),
        mapped_projects: BTreeSet::new(),
        action_grants: Vec::new(),
    }
}

#[test]
fn authentication_without_a_project_grant_is_denied() {
    let organization_id = id();
    let principal = Principal {
        subject: "oidc:person".into(),
        kind: PrincipalKind::Human,
        organization_id,
        project_roles: BTreeMap::new(),
        service_scopes: Vec::new(),
        mapped_projects: BTreeSet::new(),
        action_grants: Vec::new(),
    };
    assert_eq!(
        authorize(&principal, organization_id, Some(id()), Action::ProjectView),
        Err(AuthorizationDenied::NoMatchingGrant)
    );
}

#[test]
fn cross_tenant_substitution_is_denied_before_role_evaluation() {
    let organization_id = id();
    let project_id = id();
    let principal = human(ProjectRole::Owner, organization_id, project_id);
    assert_eq!(
        authorize(&principal, id(), Some(project_id), Action::ProjectConfigure),
        Err(AuthorizationDenied::TenantMismatch)
    );
}

#[test]
fn human_role_matrix_is_least_privilege() {
    let organization_id = id();
    let project_id = id();
    let viewer = human(ProjectRole::Viewer, organization_id, project_id);
    assert!(authorize(&viewer, organization_id, Some(project_id), Action::ProjectView).is_ok());
    assert_eq!(
        authorize(&viewer, organization_id, Some(project_id), Action::BuildTrigger),
        Err(AuthorizationDenied::NoMatchingGrant)
    );
}

#[test]
fn scheduler_control_requires_an_explicit_service_scope() {
    let organization_id = id();
    let mut principal = Principal {
        subject: "service:scheduler".into(),
        kind: PrincipalKind::Service,
        organization_id,
        project_roles: BTreeMap::new(),
        service_scopes: Vec::new(),
        mapped_projects: BTreeSet::new(),
        action_grants: Vec::new(),
    };
    assert_eq!(
        authorize(&principal, organization_id, None, Action::SchedulerControl),
        Err(AuthorizationDenied::NoMatchingGrant)
    );
    principal.service_scopes.push(ServiceScope::SchedulerControl);
    assert!(authorize(&principal, organization_id, None, Action::SchedulerControl).is_ok());
}

#[test]
fn project_scoped_service_actions_require_a_project() {
    let organization_id = id();
    let principal = Principal {
        subject: "service:submitter".into(),
        kind: PrincipalKind::Service,
        organization_id,
        project_roles: BTreeMap::new(),
        service_scopes: vec![
            ServiceScope::ProjectRead,
            ServiceScope::BuildSubmit,
            ServiceScope::BuildCancel,
            ServiceScope::SecretUse,
            ServiceScope::ProjectAdmin,
        ],
        mapped_projects: BTreeSet::new(),
        action_grants: Vec::new(),
    };
    for action in [
        Action::ProjectView,
        Action::BuildTrigger,
        Action::BuildCancel,
        Action::ProjectConfigure,
        Action::ApprovalAct,
        Action::BuildRetry,
        Action::ArtifactRead,
        Action::ArtifactWrite,
        Action::TestRead,
        Action::LogRead,
        Action::SecretUse,
    ] {
        assert_eq!(
            authorize(&principal, organization_id, None, action),
            Err(AuthorizationDenied::ProjectRequired)
        );
    }
}

#[test]
fn mapped_policy_disables_lattice_fallback_and_honors_explicit_decisions() {
    let organization_id = id();
    let project_id = id();
    let mut principal = human(ProjectRole::Owner, organization_id, project_id);
    principal.mapped_projects.insert(project_id);
    principal.action_grants.push((project_id, Action::ProjectView, GrantDecision::Allow));
    principal.action_grants.push((project_id, Action::BuildTrigger, GrantDecision::Deny));
    assert!(authorize(&principal, organization_id, Some(project_id), Action::ProjectView).is_ok());
    for action in [Action::BuildTrigger, Action::ProjectConfigure] {
        assert_eq!(
            authorize(&principal, organization_id, Some(project_id), action),
            Err(AuthorizationDenied::NoMatchingGrant)
        );
    }
}

#[test]
fn a_successful_grant_records_who_did_what_where() {
    let organization_id = id();
    let project_id = id();
    let owner = human(ProjectRole::Owner, organization_id, project_id);
    let grant = authorize(&owner, organization_id, Some(project_id), Action::ProjectConfigure).unwrap();
    assert_eq!(grant.subject, "oidc:person");
    assert_eq!(grant.organization_id, organization_id);
    assert_eq!(grant.project_id, Some(project_id));
    assert_eq!(grant.action, Action::ProjectConfigure);
}

#[test]
fn humans_never_hold_tenant_wide_actions() {
    let organization_id = id();
    let project_id = id();
    let owner = human(ProjectRole::Owner, organization_id, project_id);
    for action in [Action::AuditRead, Action::SchedulerControl] {
        assert_eq!(
            authorize(&owner, organization_id, Some(project_id), action),
            Err(AuthorizationDenied::NoMatchingGrant)
        );
    }
}

#[test]
fn role_lattice_is_monotone_on_an_example() {
    let organization_id = id();
    let project_id = id();
    let developer = human(ProjectRole::Developer, organization_id, project_id);
    let admin = human(ProjectRole::Admin, organization_id, project_id);
    assert!(authorize(&developer, organization_id, Some(project_id), Action::BuildTrigger).is_ok());
    assert!(authorize(&admin, organization_id, Some(project_id), Action::BuildTrigger).is_ok());
    assert!(authorize(&developer, organization_id, Some(project_id), Action::SecretUse).is_err());
    assert!(authorize(&admin, organization_id, Some(project_id), Action::SecretUse).is_ok());
}

#[test]
fn action_and_decision_names_round_trip() {
    for action in Action::mappable() {
        assert_eq!(Action::parse(action.as_str()), Some(action));
    }
    assert_eq!(Action::parse("scheduler_control"), Some(Action::SchedulerControl));
    assert_eq!(Action::parse("unknown"), None);
    assert_eq!(GrantDecision::parse(GrantDecision::Allow.as_str()), Some(GrantDecision::Allow));
    assert_eq!(GrantDecision::parse("deny"), Some(GrantDecision::Deny));
    assert_eq!(GrantDecision::parse("maybe"), None);
}
