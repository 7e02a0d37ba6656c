//! Deny-by-default authorization over principals, roles, scopes and
//! imported per-project action decisions.
use std::collections::BTreeMap;
use std::collections::BTreeSet;

use vstd::prelude::*;

use crate::text::str_eq;

verus! {

/// Authenticated principal class. Authentication alone grants nothing.
#[derive(Clone, Copy, Debug, PartialEq, Eq, Structural)]
pub enum PrincipalKind {
    Human,
    Service,
}

/// Human project role, ordered from least to most privileged.
#[derive(Clone, Copy, Debug, PartialEq, Eq, Structural)]
pub enum ProjectRole {
    Viewer,
    Developer,
    Admin,
    Owner,
}

/// Scoped authority available to a service identity.
#[derive(Clone, Copy, Debug, PartialEq, Eq, Structural)]
pub enum ServiceScope {
    ProjectRead,
    BuildSubmit,
    BuildCancel,
    SecretUse,
    ProjectAdmin,
    AuditRead,
    SchedulerControl,
}

/// Central action vocabulary for controller authorization.
#[derive(Clone, Copy, Debug, PartialEq, Eq, Structural)]
pub enum Action {
    ProjectView,
    BuildTrigger,
    BuildCancel,
    ProjectConfigure,
    ApprovalAct,
    BuildRetry,
    ArtifactRead,
    ArtifactWrite,
    TestRead,
    LogRead,
    SecretUse,
    AuditRead,
    SchedulerControl,
}

#[derive(Clone, Copy, Debug, PartialEq, Eq, Structural)]
pub enum GrantDecision {
    Allow,
    Deny,
}

/// Stable deny reason; callers must not infer permission from authentication.
#[derive(Clone, Copy, Debug, PartialEq, Eq, Structural)]
pub enum AuthorizationDenied {
    TenantMismatch,
    ProjectRequired,
    NoMatchingGrant,
}

/// Fully authenticated identity and its already-loaded grants.
///
/// `action_grants` holds `(project, action, decision)` entries; the first
/// entry for a `(project, action)` pair is the one that counts.
#[derive(Clone, Debug, PartialEq, Eq)]
pub struct Principal {
    pub subject: String,
    pub kind: PrincipalKind,
    pub organization_id: u128,
    pub project_roles: BTreeMap<u128, ProjectRole>,
    pub service_scopes: Vec<ServiceScope>,
    /// Projects whose imported Jenkins policy disables role-lattice fallback.
    pub mapped_projects: BTreeSet<u128>,
    /// Current, provenance-valid action decisions for imported project policy.
    pub action_grants: Vec<(u128, Action, GrantDecision)>,
}

/// Auditable authorization success.
#[derive(Clone, Debug, PartialEq, Eq)]
pub struct AuthorizationGrant {
    pub subject: String,
    pub organization_id: u128,
    pub project_id: Option<u128>,
    pub action: Action,
}

impl Action {
    /// The actions that an imported project policy may decide.
    pub open spec fn is_mappable(self) -> bool {
        !(self is SchedulerControl)
    }

    pub open spec fn name(self) -> Seq<char> {
        match self {
            Action::ProjectView => "project_view"@,
            Action::BuildTrigger => "build_trigger"@,
            Action::BuildCancel => "build_cancel"@,
            Action::ProjectConfigure => "project_configure"@,
            Action::ApprovalAct => "approval_act"@,
            Action::BuildRetry => "build_retry"@,
            Action::ArtifactRead => "artifact_read"@,
            Action::ArtifactWrite => "artifact_write"@,
            Action::TestRead => "test_read"@,
            Action::LogRead => "log_read"@,
            Action::SecretUse => "secret_use"@,
            Action::AuditRead => "audit_read"@,
            Action::SchedulerControl => "scheduler_control"@,
        }
    }

    pub open spec fn from_name(s: Seq<char>) -> Option<Action> {
        if s == "project_view"@ {
            Some(Action::ProjectView)
        } else if s == "build_trigger"@ {
            Some(Action::BuildTrigger)
        } else if s == "build_cancel"@ {
            Some(Action::BuildCancel)
        } else if s == "project_configure"@ {
            Some(Action::ProjectConfigure)
        } else if s == "approval_act"@ {
            Some(Action::ApprovalAct)
        } else if s == "build_retry"@ {
            Some(Action::BuildRetry)
        } else if s == "artifact_read"@ {
            Some(Action::ArtifactRead)
        } else if s == "artifact_write"@ {
            Some(Action::ArtifactWrite)
        } else if s == "test_read"@ {
            Some(Action::TestRead)
        } else if s == "log_read"@ {
            Some(Action::LogRead)
        } else if s == "secret_use"@ {
            Some(Action::SecretUse)
        } else if s == "audit_read"@ {
            Some(Action::AuditRead)
        } else if s == "scheduler_control"@ {
            Some(Action::SchedulerControl)
        } else {
            None
        }
    }

    /// The mappable actions in declaration order: every action but
    /// scheduler control.
    pub open spec fn mappable_order() -> Seq<Action> {
        seq![
            Action::ProjectView,
            Action::BuildTrigger,
            Action::BuildCancel,
            Action::ProjectConfigure,
            Action::ApprovalAct,
            Action::BuildRetry,
            Action::ArtifactRead,
            Action::ArtifactWrite,
            Action::TestRead,
            Action::LogRead,
            Action::SecretUse,
            Action::AuditRead,
        ]
    }

    /// The mappable actions, in declaration order.
    pub fn mappable() -> (r: Vec<Action>)
        ensures
            r@ == Action::mappable_order(),
            r@.len() == 12,
            forall|i: int| 0 <= i < 12 ==> (#[trigger] r@[i]).is_mappable(),
            forall|a: Action| a.is_mappable() ==> r@.contains(a),
    {
        let r = vec![
            Action::ProjectView,
            Action::BuildTrigger,
            Action::BuildCancel,
            Action::ProjectConfigure,
            Action::ApprovalAct,
            Action::BuildRetry,
            Action::ArtifactRead,
            Action::ArtifactWrite,
            Action::TestRead,
            Action::LogRead,
            Action::SecretUse,
            Action::AuditRead,
        ];
        assert forall|a: Action| a.is_mappable() implies r@.contains(a) by {
            match a {
                Action::ProjectView => assert(r@[0] == a),
                Action::BuildTrigger => assert(r@[1] == a),
                Action::BuildCancel => assert(r@[2] == a),
                Action::ProjectConfigure => assert(r@[3] == a),
                Action::ApprovalAct => assert(r@[4] == a),
                Action::BuildRetry => assert(r@[5] == a),
                Action::ArtifactRead => assert(r@[6] == a),
                Action::ArtifactWrite => assert(r@[7] == a),
                Action::TestRead => assert(r@[8] == a),
                Action::LogRead => assert(r@[9] == a),
                Action::SecretUse => assert(r@[10] == a),
                Action::AuditRead => assert(r@[11] == a),
                Action::SchedulerControl => {},
            }
        }
        r
    }

    pub fn as_str(self) -> (s: &'static str)
        ensures
            s@ == self.name(),
    {
        match self {
            Action::ProjectView => "project_view",
            Action::BuildTrigger => "build_trigger",
            Action::BuildCancel => "build_cancel",
            Action::ProjectConfigure => "project_configure",
            Action::ApprovalAct => "approval_act",
            Action::BuildRetry => "build_retry",
            Action::ArtifactRead => "artifact_read",
            Action::ArtifactWrite => "artifact_write",
            Action::TestRead => "test_read",
            Action::LogRead => "log_read",
            Action::SecretUse => "secret_use",
            Action::AuditRead => "audit_read",
            Action::SchedulerControl => "scheduler_control",
        }
    }

    pub fn parse(value: &str) -> (r: Option<Action>)
        ensures
            r == Action::from_name(value@),
    {
        if str_eq(value, "project_view") {
            Some(Action::ProjectView)
        } else if str_eq(value, "build_trigger") {
            Some(Action::BuildTrigger)
        } else if str_eq(value, "build_cancel") {
            Some(Action::BuildCancel)
        } else if str_eq(value, "project_configure") {
            Some(Action::ProjectConfigure)
        } else if str_eq(value, "approval_act") {
            Some(Action::ApprovalAct)
        } else if str_eq(value, "build_retry") {
            Some(Action::BuildRetry)
        } else if str_eq(value, "artifact_read") {
            Some(Action::ArtifactRead)
        } else if str_eq(value, "artifact_write") {
            Some(Action::ArtifactWrite)
        } else if str_eq(value, "test_read") {
            Some(Action::TestRead)
        } else if str_eq(value, "log_read") {
            Some(Action::LogRead)
        } else if str_eq(value, "secret_use") {
            Some(Action::SecretUse)
        } else if str_eq(value, "audit_read") {
            Some(Action::AuditRead)
        } else if str_eq(value, "scheduler_control") {
            Some(Action::SchedulerControl)
        } else {
            None
        }
    }
}

/// Parsing the name of an action gives the action back.
pub proof fn law_action_name_round_trip(a: Action)
    ensures
        Action::from_name(a.name()) == Some(a),
{
    reveal_strlit("project_view");
    reveal_strlit("build_trigger");
    reveal_strlit("build_cancel");
    reveal_strlit("project_configure");
    reveal_strlit("approval_act");
    reveal_strlit("build_retry");
    reveal_strlit("artifact_read");
    reveal_strlit("artifact_write");
    reveal_strlit("test_read");
    reveal_strlit("log_read");
    reveal_strlit("secret_use");
    reveal_strlit("audit_read");
    reveal_strlit("scheduler_control");
    assert("project_view"@.len() == 12);
    assert("build_trigger"@.len() == 13);
    assert("build_cancel"@.len() == 12);
    assert("project_configure"@.len() == 17);
    assert("approval_act"@.len() == 12);
    assert("build_retry"@.len() == 11);
    assert("artifact_read"@.len() == 13);
    assert("artifact_write"@.len() == 14);
    assert("test_read"@.len() == 9);
    assert("log_read"@.len() == 8);
    assert("secret_use"@.len() == 10);
    assert("audit_read"@.len() == 10);
    assert("scheduler_control"@.len() == 17);
    assert("approval_act"@[0] == 'a');
    assert("artifact_read"@[0] == 'a');
    assert("audit_read"@[0] == 'a');
    assert("build_cancel"@[0] == 'b');
    assert("build_trigger"@[0] == 'b');
    assert("project_configure"@[0] == 'p');
    assert("project_view"@[0] == 'p');
    assert("scheduler_control"@[0] == 's');
    assert("secret_use"@[0] == 's');
}

impl GrantDecision {
    pub open spec fn name(self) -> Seq<char> {
        match self {
            GrantDecision::Allow => "allow"@,
            GrantDecision::Deny => "deny"@,
        }
    }

    pub open spec fn from_name(s: Seq<char>) -> Option<GrantDecision> {
        if s == "allow"@ {
            Some(GrantDecision::Allow)
        } else if s == "deny"@ {
            Some(GrantDecision::Deny)
        } else {
            None
        }
    }

    pub fn as_str(self) -> (s: &'static str)
        ensures
            s@ == self.name(),
    {
        match self {
            GrantDecision::Allow => "allow",
            GrantDecision::Deny => "deny",
        }
    }

    pub fn parse(value: &str) -> (r: Option<GrantDecision>)
        ensures
            r == GrantDecision::from_name(value@),
    {
        if str_eq(value, "allow") {
            Some(GrantDecision::Allow)
        } else if str_eq(value, "deny") {
            Some(GrantDecision::Deny)
        } else {
            None
        }
    }
}

/// Parsing the name of a grant decision gives the decision back.
pub proof fn law_grant_decision_name_round_trip(d: GrantDecision)
    ensures
        GrantDecision::from_name(d.name()) == Some(d),
{
    reveal_strlit("allow");
    reveal_strlit("deny");
    assert("deny"@.len() == 4);
    assert("allow"@.len() == 5);
}

pub open spec fn role_rank(role: ProjectRole) -> int {
    match role {
        ProjectRole::Viewer => 0,
        ProjectRole::Developer => 1,
        ProjectRole::Admin => 2,
        ProjectRole::Owner => 3,
    }
}

/// The actions that need no project: the organization-wide ones.
pub open spec fn is_tenant_wide(action: Action) -> bool {
    action is SchedulerControl || action is AuditRead
}

/// The service scope that grants an action.
pub open spec fn required_scope(action: Action) -> ServiceScope {
    match action {
        Action::ProjectView | Action::ArtifactRead | Action::TestRead | Action::LogRead => {
            ServiceScope::ProjectRead
        },
        Action::BuildTrigger | Action::BuildRetry | Action::ArtifactWrite => {
            ServiceScope::BuildSubmit
        },
        Action::BuildCancel => ServiceScope::BuildCancel,
        Action::ProjectConfigure | Action::ApprovalAct => ServiceScope::ProjectAdmin,
        Action::SecretUse => ServiceScope::SecretUse,
        Action::AuditRead => ServiceScope::AuditRead,
        Action::SchedulerControl => ServiceScope::SchedulerControl,
    }
}

/// The human role lattice: reads for every member, build control from
/// developer up, configuration, approvals and secrets from admin up.
pub open spec fn role_allows(role: ProjectRole, action: Action) -> bool {
    match action {
        Action::ProjectView | Action::ArtifactRead | Action::TestRead | Action::LogRead => true,
        Action::BuildTrigger | Action::BuildCancel | Action::BuildRetry | Action::ArtifactWrite => {
            role_rank(role) >= 1
        },
        Action::SecretUse | Action::ProjectConfigure | Action::ApprovalAct => role_rank(role) >= 2,
        Action::AuditRead | Action::SchedulerControl => false,
    }
}

/// The first decision recorded for `(project, action)`.
pub open spec fn grant_lookup(
    grants: Seq<(u128, Action, GrantDecision)>,
    project: u128,
    action: Action,
) -> Option<GrantDecision>
    decreases grants.len(),
{
    if grants.len() == 0 {
        None
    } else if grants[0].0 == project && grants[0].1 == action {
        Some(grants[0].2)
    } else {
        grant_lookup(grants.drop_first(), project, action)
    }
}

/// Whether the principal's grants allow the action on the resource, once
/// tenant and project requirements hold.
pub open spec fn grants_allow(p: Principal, project: Option<u128>, action: Action) -> bool {
    if project is Some && p.mapped_projects@.contains(project->0) {
        grant_lookup(p.action_grants@, project->0, action) == Some(GrantDecision::Allow)
    } else {
        match p.kind {
            PrincipalKind::Service => p.service_scopes@.contains(required_scope(action)),
            PrincipalKind::Human => {
                !is_tenant_wide(action) && project is Some && p.project_roles@.contains_key(
                    project->0,
                ) && role_allows(p.project_roles@[project->0], action)
            },
        }
    }
}

/// The authorization decision: tenant first, then the project requirement,
/// then the grants.
pub open spec fn authorization_decision(
    p: Principal,
    organization_id: u128,
    project: Option<u128>,
    action: Action,
) -> Result<(), AuthorizationDenied> {
    if p.organization_id != organization_id {
        Err(AuthorizationDenied::TenantMismatch)
    } else if !is_tenant_wide(action) && project is None {
        Err(AuthorizationDenied::ProjectRequired)
    } else if !grants_allow(p, project, action) {
        Err(AuthorizationDenied::NoMatchingGrant)
    } else {
        Ok(())
    }
}

fn role_at_least(role: ProjectRole, rank: u8) -> (r: bool)
    ensures
        r == (role_rank(role) >= rank),
{
    let actual: u8 = match role {
        ProjectRole::Viewer => 0,
        ProjectRole::Developer => 1,
        ProjectRole::Admin => 2,
        ProjectRole::Owner => 3,
    };
    actual >= rank
}

fn scope_for(action: Action) -> (s: ServiceScope)
    ensures
        s == required_scope(action),
{
    match action {
        Action::ProjectView | Action::ArtifactRead | Action::TestRead | Action::LogRead => {
            ServiceScope::ProjectRead
        },
        Action::BuildTrigger | Action::BuildRetry | Action::ArtifactWrite => {
            ServiceScope::BuildSubmit
        },
        Action::BuildCancel => ServiceScope::BuildCancel,
        Action::ProjectConfigure | Action::ApprovalAct => ServiceScope::ProjectAdmin,
        Action::SecretUse => ServiceScope::SecretUse,
        Action::AuditRead => ServiceScope::AuditRead,
        Action::SchedulerControl => ServiceScope::SchedulerControl,
    }
}

fn service_allows(principal: &Principal, action: Action) -> (r: bool)
    ensures
        r == principal.service_scopes@.contains(required_scope(action)),
{
    let required = scope_for(action);
    let mut i: usize = 0;
    while i < principal.service_scopes.len()
        invariant
            i <= principal.service_scopes@.len(),
            required == required_scope(action),
            forall|j: int| 0 <= j < i ==> principal.service_scopes@[j] != required,
        decreases principal.service_scopes@.len() - i,
    {
        if principal.service_scopes[i] == required {
            assert(principal.service_scopes@[i as int] == required);
            return true;
        }
        i = i + 1;
    }
    false
}

fn human_allows(principal: &Principal, project_id: Option<u128>, action: Action) -> (r: Result<
    bool,
    AuthorizationDenied,
>)
    ensures
        match r {
            Ok(allowed) => allowed == (!is_tenant_wide(action) && project_id is Some
                && principal.project_roles@.contains_key(project_id->0) && role_allows(
                principal.project_roles@[project_id->0],
                action,
            )),
            Err(e) => e == AuthorizationDenied::ProjectRequired && !is_tenant_wide(action)
                && project_id is None,
        },
{
    if matches!(action, Action::SchedulerControl | Action::AuditRead) {
        return Ok(false);
    }
    let project_id = match project_id {
        Some(id) => id,
        None => return Err(AuthorizationDenied::ProjectRequired),
    };
    let role = match principal.project_roles.get(&project_id) {
        Some(role) => *role,
        None => return Ok(false),
    };
    Ok(
        match action {
            Action::ProjectView | Action::ArtifactRead | Action::TestRead | Action::LogRead => true,
            Action::BuildTrigger | Action::BuildCancel | Action::BuildRetry
            | Action::ArtifactWrite => role_at_least(role, 1),
            Action::SecretUse | Action::ProjectConfigure | Action::ApprovalAct => role_at_least(
                role,
                2,
            ),
            Action::AuditRead | Action::SchedulerControl => false,
        },
    )
}

fn lookup_grant(grants: &Vec<(u128, Action, GrantDecision)>, project: u128, action: Action) -> (r:
    Option<GrantDecision>)
    ensures
        r == grant_lookup(grants@, project, action),
{
    let mut i: usize = 0;
    assert(grants@.skip(0) =~= grants@);
    while i < grants.len()
        invariant
            i <= grants@.len(),
            grant_lookup(grants@, project, action) == grant_lookup(
                grants@.skip(i as int),
                project,
                action,
            ),
        decreases grants@.len() - i,
    {
        let entry = grants[i];
        assert(grants@.skip(i as int).drop_first() =~= grants@.skip(i + 1));
        if entry.0 == project && entry.1 == action {
            return Some(entry.2);
        }
        i = i + 1;
    }
    None
}

/// Deny-by-default policy engine used by every controller surface.
pub fn authorize(
    principal: &Principal,
    resource_organization_id: u128,
    resource_project_id: Option<u128>,
    action: Action,
) -> (r: Result<AuthorizationGrant, AuthorizationDenied>)
    ensures
        match r {
            Ok(grant) => {
                &&& authorization_decision(
                    *principal,
                    resource_organization_id,
                    resource_project_id,
                    action,
                ) is Ok
                &&& grant.subject@ == principal.subject@
                &&& grant.organization_id == resource_organization_id
                &&& grant.project_id == resource_project_id
                &&& grant.action == action
            },
            Err(e) => authorization_decision(
                *principal,
                resource_organization_id,
                resource_project_id,
                action,
            ) == Err::<(), AuthorizationDenied>(e),
        },
{
    if principal.organization_id != resource_organization_id {
        return Err(AuthorizationDenied::TenantMismatch);
    }
    if !matches!(action, Action::SchedulerControl | Action::AuditRead)
        && resource_project_id.is_none()
    {
        return Err(AuthorizationDenied::ProjectRequired);
    }
    let mapped = match resource_project_id {
        Some(project_id) => principal.mapped_projects.contains(&project_id),
        None => false,
    };
    let allowed = if mapped {
        let project_id = resource_project_id.unwrap();
        match lookup_grant(&principal.action_grants, project_id, action) {
            Some(GrantDecision::Allow) => true,
            _ => false,
        }
    } else {
        match principal.kind {
            PrincipalKind::Service => service_allows(principal, action),
            PrincipalKind::Human => match human_allows(principal, resource_project_id, action) {
                Ok(allowed) => allowed,
                Err(e) => return Err(e),
            },
        }
    };
    if !allowed {
        return Err(AuthorizationDenied::NoMatchingGrant);
    }
    Ok(
        AuthorizationGrant {
            subject: principal.subject.clone(),
            organization_id: resource_organization_id,
            project_id: resource_project_id,
            action,
        },
    )
}

/// A resource of another organization is denied before any grant is looked at.
pub proof fn law_cross_tenant_denied(
    p: Principal,
    organization_id: u128,
    project: Option<u128>,
    action: Action,
)
    requires
        p.organization_id != organization_id,
    ensures
        authorization_decision(p, organization_id, project, action) == Err::<
            (),
            AuthorizationDenied,
        >(AuthorizationDenied::TenantMismatch),
{
}

/// Authentication alone grants nothing: a principal with no roles, scopes or
/// decisions is denied every action.
pub proof fn law_authentication_alone_grants_nothing(
    p: Principal,
    organization_id: u128,
    project: Option<u128>,
    action: Action,
)
    requires
        p.project_roles@ == Map::<u128, ProjectRole>::empty(),
        p.service_scopes@.len() == 0,
        p.action_grants@.len() == 0,
    ensures
        authorization_decision(p, organization_id, project, action) is Err,
{
}

/// The human role lattice is monotone: a more privileged role allows at least
/// what a less privileged one allows.
pub proof fn law_role_lattice_monotone(low: ProjectRole, high: ProjectRole, action: Action)
    requires
        role_rank(low) <= role_rank(high),
        role_allows(low, action),
    ensures
        role_allows(high, action),
{
}

/// A viewer may only read.
pub proof fn law_viewer_is_read_only(action: Action)
    requires
        role_allows(ProjectRole::Viewer, action),
    ensures
        action is ProjectView || action is ArtifactRead || action is TestRead || action is LogRead,
{
}

/// No human role reaches the organization-wide actions.
pub proof fn law_humans_never_hold_tenant_wide_actions(role: ProjectRole, action: Action)
    requires
        is_tenant_wide(action),
    ensures
        !role_allows(role, action),
{
}

/// Scheduler control is granted only to a service holding the explicit
/// scheduler-control scope, or through an explicit imported decision.
pub proof fn law_scheduler_control_needs_explicit_scope(
    p: Principal,
    organization_id: u128,
    project: Option<u128>,
)
    requires
        authorization_decision(p, organization_id, project, Action::SchedulerControl) is Ok,
        !(project is Some && p.mapped_projects@.contains(project->0)),
    ensures
        p.kind == PrincipalKind::Service,
        p.service_scopes@.contains(ServiceScope::SchedulerControl),
{
}

/// On a project with an imported policy, the role lattice and the service
/// scopes no longer count: only an explicit allow decision does.
pub proof fn law_mapped_project_needs_explicit_allow(
    p: Principal,
    organization_id: u128,
    project: u128,
    action: Action,
)
    requires
        p.organization_id == organization_id,
        p.mapped_projects@.contains(project),
    ensures
        authorization_decision(p, organization_id, Some(project), action) is Ok <==> grant_lookup(
            p.action_grants@,
            project,
            action,
        ) == Some(GrantDecision::Allow),
{
}

/// The first of `actions` that `p` may not take on `project`.
pub open spec fn first_denied(p: Principal, organization_id: u128, project: u128, actions: Seq<Action>) -> Option<
    Action,
>
    decreases actions.len(),
{
    if actions.len() == 0 {
        None
    } else if authorization_decision(p, organization_id, Some(project), actions[0]) is Err {
        Some(actions[0])
    } else {
        first_denied(p, organization_id, project, actions.drop_first())
    }
}

/// Asks `authorize` for each action in turn and answers the first one that
/// is denied, if any.
pub fn first_denied_action(
    principal: &Principal,
    organization_id: u128,
    project: u128,
    actions: &Vec<Action>,
) -> (r: Option<Action>)
    ensures
        r == first_denied(*principal, organization_id, project, actions@),
{
    let mut i: usize = 0;
    assert(actions@.skip(0) =~= actions@);
    while i < actions.len()
        invariant
            i <= actions@.len(),
            first_denied(*principal, organization_id, project, actions@) == first_denied(
                *principal,
                organization_id,
                project,
                actions@.skip(i as int),
            ),
        decreases actions@.len() - i,
    {
        let a = actions[i];
        assert(actions@.skip(i as int).drop_first() =~= actions@.skip(i + 1));
        assert(actions@.skip(i as int)[0] == a);
        if authorize(principal, organization_id, Some(project), a).is_err() {
            return Some(a);
        }
        i = i + 1;
    }
    None
}

/// The human role matrix as a table of allowed (role, action) pairs: every
/// member reads; developers, admins and owners also trigger, cancel and
/// retry builds and write artifacts; only admins and owners configure the
/// project, act on approvals and use secrets; nobody gets the tenant-wide
/// actions through a role.
pub open spec fn human_pair_allowed(role: ProjectRole, action: Action) -> bool {
    match (role, action) {
        (_, Action::ProjectView) => true,
        (_, Action::ArtifactRead) => true,
        (_, Action::TestRead) => true,
        (_, Action::LogRead) => true,
        (ProjectRole::Developer, Action::BuildTrigger) => true,
        (ProjectRole::Developer, Action::BuildCancel) => true,
        (ProjectRole::Developer, Action::BuildRetry) => true,
        (ProjectRole::Developer, Action::ArtifactWrite) => true,
        (ProjectRole::Admin, Action::BuildTrigger) => true,
        (ProjectRole::Admin, Action::BuildCancel) => true,
        (ProjectRole::Admin, Action::BuildRetry) => true,
        (ProjectRole::Admin, Action::ArtifactWrite) => true,
        (ProjectRole::Admin, Action::ProjectConfigure) => true,
        (ProjectRole::Admin, Action::ApprovalAct) => true,
        (ProjectRole::Admin, Action::SecretUse) => true,
        (ProjectRole::Owner, Action::BuildTrigger) => true,
        (ProjectRole::Owner, Action::BuildCancel) => true,
        (ProjectRole::Owner, Action::BuildRetry) => true,
        (ProjectRole::Owner, Action::ArtifactWrite) => true,
        (ProjectRole::Owner, Action::ProjectConfigure) => true,
        (ProjectRole::Owner, Action::ApprovalAct) => true,
        (ProjectRole::Owner, Action::SecretUse) => true,
        _ => false,
    }
}

/// On a project of its own tenant that no imported policy maps, a human
/// with a role there is granted exactly the actions of the role matrix and
/// denied every other one with `NoMatchingGrant`; in particular a developer
/// is denied project configuration, approvals and secrets.
pub proof fn law_human_role_matrix(p: Principal, project: u128, action: Action)
    requires
        p.kind is Human,
        !p.mapped_projects@.contains(project),
        p.project_roles@.contains_key(project),
    ensures
        authorization_decision(p, p.organization_id, Some(project), action) == if human_pair_allowed(
            p.project_roles@[project],
            action,
        ) {
            Ok::<(), AuthorizationDenied>(())
        } else {
            Err::<(), AuthorizationDenied>(AuthorizationDenied::NoMatchingGrant)
        },
        p.project_roles@[project] is Developer && (action is ProjectConfigure || action is ApprovalAct
            || action is SecretUse) ==> authorization_decision(p, p.organization_id, Some(project), action)
            == Err::<(), AuthorizationDenied>(AuthorizationDenied::NoMatchingGrant),
{
}

} // verus!
