use mcloving_controller_store::authz::{ProjectRole, ServiceScope};
use mcloving_controller_store::identity::{
    canonical_strings, check_mapped_identity, check_provider_trust, check_rotation_request,
    check_rotation_window, check_session_lifetime, digest_array, digest_strings,
    next_group_generation, parse_role, ProviderTrust, check_login_callback, check_login_provider,
    resolve_token_owner, validate_human_identity, validate_login_attempt, validate_login_claims,
    validate_revocation, validate_service_identity, LoginAttempt, NewHumanIdentity,
    NewServiceIdentity, OidcIdentityClaims, TokenOwner,
    parse_scope, plan_lifecycle_transition, plan_provider_enabled_transition, provider_from_write,
    scope_name, validate_canonical, validate_provider, validate_service_credential,
    IdentityLifecycle, IdentityProviderWrite, NewServiceCredential, SessionIssue,
};
use mcloving_controller_store::StoreError;

#[test]
fn group_digest_is_order_independent_after_canonicalization() {
    let left = canonical_strings(&["ops".to_owned(), "dev".to_owned()], "group").unwrap();
    let right = canonical_strings(&["dev".to_owned(), "ops".to_owned()], "group").unwrap();
    assert_eq!(left, right);
    assert_eq!(digest_strings(&left), digest_strings(&right));
}

#[test]
fn aliases_and_groups_reject_duplicates_and_noncanonical_values() {
    assert!(canonical_strings(&["ops".to_owned(), "ops".to_owned()], "group").is_err());
    assert!(canonical_strings(&[" ops".to_owned()], "group").is_err());
}

#[test]
fn canonical_string_errors_name_the_first_broken_rule() {
    assert_eq!(
        canonical_strings(&["a".to_owned(), "a".to_owned()], "alias"),
        Err(StoreError::InvalidIdentityOperation("alias values must be unique".to_owned()))
    );
    assert_eq!(
        canonical_strings(&["a".to_owned(), "".to_owned()], "alias"),
        Err(StoreError::InvalidIdentityOperation(
            "alias is empty, non-canonical, or too long".to_owned()
        ))
    );
    let too_many = vec!["x".to_owned(); 4097];
    assert_eq!(
        canonical_strings(&too_many, "group"),
        Err(StoreError::InvalidIdentityOperation(
            "identity string set exceeds its bounded size".to_owned()
        ))
    );
    assert_eq!(
        canonical_strings(&["b".to_owned(), "a".to_owned(), "c".to_owned()], "group").unwrap(),
        vec!["a".to_owned(), "b".to_owned(), "c".to_owned()]
    );
}

#[test]
fn canonical_text_rejects_nul_padding_and_length() {
    assert!(validate_canonical("ok", "label", 8).is_ok());
    assert!(validate_canonical("nul\0", "label", 8).is_err());
    assert!(validate_canonical("ok ", "label", 8).is_err());
    assert!(validate_canonical("\u{3000}ok", "label", 8).is_err());
    assert!(validate_canonical("123456789", "label", 8).is_err());
    assert!(validate_canonical("é", "label", 1).is_err());
}

#[test]
fn string_set_digest_is_sha256_of_the_framed_values() {
    // SHA-256 of "mcloving.identity.string-set.v1\0" followed by nothing.
    let empty = digest_strings(&[]);
    let one = digest_strings(&["a".to_owned()]);
    assert_ne!(empty, one);
    assert_ne!(digest_strings(&["ab".to_owned()]), digest_strings(&["a".to_owned(), "b".to_owned()]));
}

#[test]
fn lifecycle_scope_and_role_names_round_trip() {
    for state in [IdentityLifecycle::Active, IdentityLifecycle::Disabled, IdentityLifecycle::Deleted] {
        assert_eq!(IdentityLifecycle::parse(state.as_str()), Ok(state));
    }
    assert!(IdentityLifecycle::parse("archived").is_err());
    for scope in [
        ServiceScope::ProjectRead,
        ServiceScope::BuildSubmit,
        ServiceScope::BuildCancel,
        ServiceScope::SecretUse,
        ServiceScope::ProjectAdmin,
        ServiceScope::AuditRead,
        ServiceScope::SchedulerControl,
    ] {
        assert_eq!(parse_scope(scope_name(scope)), Ok(scope));
    }
    assert_eq!(parse_role("owner"), Ok(ProjectRole::Owner));
    assert_eq!(parse_role("viewer"), Ok(ProjectRole::Viewer));
    assert_eq!(
        parse_role("root"),
        Err(StoreError::InvalidIdentityOperation("project role is unknown".to_owned()))
    );
}

#[test]
fn stored_digests_must_be_32_bytes() {
    let bytes = [7u8; 32];
    assert_eq!(digest_array(&bytes), Ok(bytes));
    assert!(digest_array(&bytes[..31]).is_err());
}

fn provider() -> IdentityProviderWrite {
    IdentityProviderWrite {
        organization_id: 1,
        provider_id: 2,
        issuer: "https://issuer.example".to_owned(),
        audience: "mcloving".to_owned(),
        authorization_endpoint: "https://issuer.example/authorize".to_owned(),
        token_endpoint: "https://issuer.example/token".to_owned(),
        jwks_uri: "https://issuer.example/jwks".to_owned(),
        client_id: "client".to_owned(),
        group_claim: "groups".to_owned(),
        configuration_generation: 1,
        configuration_digest: [1; 32],
        jwks_generation: 1,
        jwks_digest: [2; 32],
        enabled: true,
        actor_subject: "admin".to_owned(),
    }
}

#[test]
fn provider_checks_name_the_first_bad_field() {
    assert!(validate_provider(&provider()).is_ok());
    let mut bad = provider();
    bad.audience = " mcloving".to_owned();
    bad.client_id = String::new();
    assert_eq!(
        validate_provider(&bad),
        Err(StoreError::InvalidIdentityOperation(
            "audience is empty, non-canonical, or too long".to_owned()
        ))
    );
    let mut stale = provider();
    stale.jwks_generation = 0;
    assert_eq!(
        validate_provider(&stale),
        Err(StoreError::InvalidIdentityOperation(
            "identity provider generations must be positive".to_owned()
        ))
    );
    let config = provider_from_write(&provider());
    assert_eq!(config.issuer, "https://issuer.example");
    assert_eq!(config.jwks_digest, [2; 32]);
    assert!(config.enabled);
}

#[test]
fn service_credentials_expire_after_issuance() {
    let credential = NewServiceCredential {
        organization_id: 1,
        credential_id: 2,
        identity_id: 3,
        generation: 1,
        token_digest: [9; 32],
        issued_at_unix_ms: 1_000,
        expires_at_unix_ms: Some(2_000),
        actor_subject: "admin".to_owned(),
    };
    assert!(validate_service_credential(&credential).is_ok());
    let mut expired = credential.clone();
    expired.expires_at_unix_ms = Some(1_000);
    assert_eq!(
        validate_service_credential(&expired),
        Err(StoreError::InvalidIdentityOperation(
            "service credential expiry must follow issuance".to_owned()
        ))
    );
    let mut first = credential;
    first.generation = 0;
    assert!(validate_service_credential(&first).is_err());
}

#[test]
fn session_lifetimes_are_ordered() {
    let issue = SessionIssue {
        session_id: 1,
        token_digest: [1; 32],
        refresh_token_digest: Some([2; 32]),
        issued_at_unix_ms: 10,
        expires_at_unix_ms: 20,
        refresh_expires_at_unix_ms: Some(30),
    };
    assert!(check_session_lifetime(&issue).is_ok());
    let mut early = issue.clone();
    early.refresh_expires_at_unix_ms = Some(20);
    assert!(check_session_lifetime(&early).is_err());
    let mut unpaired = issue;
    unpaired.refresh_token_digest = None;
    assert!(check_session_lifetime(&unpaired).is_err());
}

#[test]
fn deleted_identities_are_never_reactivated() {
    assert_eq!(
        plan_lifecycle_transition("deleted", 4, 4, IdentityLifecycle::Active),
        Err(StoreError::IdentityConflict(
            "deleted identity cannot be reactivated or reused".to_owned()
        ))
    );
    assert_eq!(plan_lifecycle_transition("deleted", 4, 4, IdentityLifecycle::Deleted), Ok(None));
    assert_eq!(plan_lifecycle_transition("active", 4, 4, IdentityLifecycle::Disabled), Ok(Some(5)));
    assert!(matches!(
        plan_lifecycle_transition("active", 4, 3, IdentityLifecycle::Disabled),
        Err(StoreError::IdentityConflict(_))
    ));
    assert!(matches!(
        plan_lifecycle_transition("active", i64::MAX, i64::MAX, IdentityLifecycle::Disabled),
        Err(StoreError::InvalidIdentityOperation(_))
    ));
}

#[test]
fn provider_enablement_advances_the_generation_only_on_change() {
    assert_eq!(plan_provider_enabled_transition(3, true, 3, true), Ok(None));
    assert_eq!(plan_provider_enabled_transition(3, true, 3, false), Ok(Some(4)));
    assert!(matches!(
        plan_provider_enabled_transition(3, true, 2, false),
        Err(StoreError::IdentityConflict(_))
    ));
}

#[test]
fn logins_need_the_current_enabled_provider_trust() {
    let trust = || Some(ProviderTrust {
        issuer: "https://id.example",
        configuration_generation: 2,
        jwks_generation: 5,
        enabled: true,
    });
    assert_eq!(check_provider_trust(trust(), "https://id.example", 2, 5), Ok(()));
    assert_eq!(
        check_provider_trust(None, "https://id.example", 2, 5),
        Err(StoreError::IdentityConflict("OIDC provider is unknown".to_owned()))
    );
    let stale = Err(StoreError::IdentityConflict(
        "OIDC issuer or provider generation does not match current trust".to_owned(),
    ));
    assert_eq!(check_provider_trust(trust(), "https://id.example", 2, 4), stale);
    assert_eq!(check_provider_trust(trust(), "https://other.example", 2, 5), stale);
    let disabled = Some(ProviderTrust {
        issuer: "https://id.example",
        configuration_generation: 2,
        jwks_generation: 5,
        enabled: false,
    });
    assert_eq!(check_provider_trust(disabled, "https://id.example", 2, 5), stale);
}

#[test]
fn logins_map_to_active_humans_only() {
    assert_eq!(check_mapped_identity(Some(("human", "active"))), Ok(()));
    assert_eq!(
        check_mapped_identity(None),
        Err(StoreError::IdentityConflict("OIDC identity is not mapped".to_owned()))
    );
    let refused = Err(StoreError::IdentityConflict("OIDC identity is disabled or deleted".to_owned()));
    assert_eq!(check_mapped_identity(Some(("service", "active"))), refused);
    assert_eq!(check_mapped_identity(Some(("human", "disabled"))), refused);
}

#[test]
fn group_generation_moves_only_when_groups_change() {
    assert_eq!(next_group_generation(&[1; 32], &[1; 32], 4), Ok((4, false)));
    assert_eq!(next_group_generation(&[1; 32], &[2; 32], 4), Ok((5, true)));
    assert_eq!(
        next_group_generation(&[1; 32], &[2; 32], i64::MAX),
        Err(StoreError::InvalidIdentityOperation("group generation overflow".to_owned()))
    );
}

#[test]
fn rotations_keep_a_refresh_credential_and_the_absolute_expiry() {
    let mut issue = SessionIssue {
        session_id: 1,
        token_digest: [1; 32],
        refresh_token_digest: Some([2; 32]),
        issued_at_unix_ms: 10,
        expires_at_unix_ms: 20,
        refresh_expires_at_unix_ms: Some(30),
    };
    assert_eq!(check_rotation_request(&issue), Ok(()));
    issue.expires_at_unix_ms = 10;
    assert_eq!(
        check_rotation_request(&issue),
        Err(StoreError::InvalidIdentityOperation("refreshed session lifetime is invalid".to_owned()))
    );
    issue.refresh_expires_at_unix_ms = None;
    assert_eq!(
        check_rotation_request(&issue),
        Err(StoreError::InvalidIdentityOperation("a refreshed session requires a refresh expiry".to_owned()))
    );
    issue.refresh_token_digest = None;
    assert_eq!(
        check_rotation_request(&issue),
        Err(StoreError::InvalidIdentityOperation(
            "a refreshed session requires a rotating refresh credential".to_owned()
        ))
    );
    assert_eq!(check_rotation_window(20, Some(30)), Ok(30));
    assert_eq!(
        check_rotation_window(30, Some(30)),
        Err(StoreError::IdentityConflict(
            "refresh credential is too close to its absolute expiry; reauthentication is required".to_owned()
        ))
    );
    assert_eq!(
        check_rotation_window(20, None),
        Err(StoreError::IdentityConflict("refresh credential has no absolute expiry".to_owned()))
    );
}

fn human() -> NewHumanIdentity {
    NewHumanIdentity {
        organization_id: 1,
        identity_id: 2,
        subject: "oidc:alice".to_owned(),
        provider_id: 3,
        external_subject: "alice@example".to_owned(),
        source_realm_digest: [1; 32],
        source_identity_id: "u-17".to_owned(),
        source_membership_generation: 4,
        alias_history: vec!["ally".to_owned(), "al".to_owned()],
        provenance_digest: [2; 32],
        actor_subject: "admin".to_owned(),
    }
}

#[test]
fn human_identities_are_canonical_with_sorted_aliases() {
    assert_eq!(validate_human_identity(&human()), Ok(vec!["al".to_owned(), "ally".to_owned()]));
    let mut padded = human();
    padded.subject = " oidc:alice".to_owned();
    assert_eq!(
        validate_human_identity(&padded),
        Err(StoreError::InvalidIdentityOperation(
            "identity subject is empty, non-canonical, or too long".to_owned()
        ))
    );
    let mut generation = human();
    generation.source_membership_generation = 0;
    assert_eq!(
        validate_human_identity(&generation),
        Err(StoreError::InvalidIdentityOperation("source membership generation must be positive".to_owned()))
    );
    let mut repeated = human();
    repeated.alias_history = vec!["al".to_owned(), "al".to_owned()];
    assert_eq!(
        validate_human_identity(&repeated),
        Err(StoreError::InvalidIdentityOperation("alias values must be unique".to_owned()))
    );
}

#[test]
fn service_identities_need_a_scope() {
    let mut service = NewServiceIdentity {
        organization_id: 1,
        identity_id: 2,
        subject: "svc:deployer".to_owned(),
        scopes: vec![ServiceScope::ProjectRead],
        actor_subject: "admin".to_owned(),
    };
    assert_eq!(validate_service_identity(&service), Ok(()));
    service.scopes.clear();
    assert_eq!(
        validate_service_identity(&service),
        Err(StoreError::InvalidIdentityOperation(
            "service identity must have at least one explicit scope".to_owned()
        ))
    );
}

#[test]
fn login_attempts_and_callbacks_are_checked() {
    let mut attempt = LoginAttempt {
        organization_id: 1,
        attempt_id: 2,
        provider_id: 3,
        state_digest: [1; 32],
        nonce_digest: [2; 32],
        pkce_verifier: "v".repeat(43),
        redirect_uri: "https://app.example/callback".to_owned(),
        provider_configuration_generation: 1,
        expires_at_unix_ms: 100,
    };
    assert_eq!(validate_login_attempt(&attempt), Ok(()));
    attempt.pkce_verifier = "v".repeat(42);
    assert_eq!(
        validate_login_attempt(&attempt),
        Err(StoreError::InvalidIdentityOperation("OIDC login attempt bounds are invalid".to_owned()))
    );
    assert_eq!(check_login_provider(Some(1), 1), Ok(()));
    assert_eq!(
        check_login_provider(Some(2), 1),
        Err(StoreError::IdentityConflict("OIDC login attempt uses a stale provider generation".to_owned()))
    );
    assert_eq!(
        check_login_provider(None, 1),
        Err(StoreError::IdentityConflict("OIDC provider is unavailable".to_owned()))
    );
    assert_eq!(check_login_callback(50, Some((false, 100, 1)), Some(1)), Ok(()));
    assert_eq!(check_login_callback(100, Some((false, 100, 1)), Some(1)), Ok(()));
    let spent = Err(StoreError::IdentityConflict("OIDC state is expired or already consumed".to_owned()));
    assert_eq!(check_login_callback(101, Some((false, 100, 1)), Some(1)), spent);
    assert_eq!(check_login_callback(50, Some((true, 100, 1)), Some(1)), spent);
    assert_eq!(
        check_login_callback(50, None, Some(1)),
        Err(StoreError::IdentityConflict("OIDC state is unknown".to_owned()))
    );
    assert_eq!(
        check_login_callback(50, Some((false, 100, 1)), Some(2)),
        Err(StoreError::IdentityConflict("OIDC state was created under a stale provider generation".to_owned()))
    );
    assert_eq!(
        check_login_callback(-1, None, None),
        Err(StoreError::InvalidIdentityOperation("OIDC callback timestamp is invalid".to_owned()))
    );
}

#[test]
fn login_claims_give_canonical_groups() {
    let claims = OidcIdentityClaims {
        organization_id: 1,
        provider_id: 2,
        issuer: "https://id.example".to_owned(),
        external_subject: "alice".to_owned(),
        groups: vec!["ops".to_owned(), "dev".to_owned()],
        provider_configuration_generation: 1,
        provider_jwks_generation: 1,
        id_token_digest: [0; 32],
    };
    assert_eq!(validate_login_claims(&claims), Ok(vec!["dev".to_owned(), "ops".to_owned()]));
}

#[test]
fn tokens_bind_to_exactly_one_credential() {
    assert_eq!(resolve_token_owner(0, true, false), Ok(TokenOwner::Session));
    assert_eq!(resolve_token_owner(0, false, true), Ok(TokenOwner::ServiceCredential));
    assert_eq!(
        resolve_token_owner(0, true, true),
        Err(StoreError::IdentityConflict("credential digest is ambiguously bound".to_owned()))
    );
    assert_eq!(
        resolve_token_owner(0, false, false),
        Err(StoreError::IdentityConflict("credential is unknown, stale, expired, or revoked".to_owned()))
    );
    assert_eq!(
        resolve_token_owner(-5, true, false),
        Err(StoreError::InvalidIdentityOperation("authentication timestamp is invalid".to_owned()))
    );
    assert_eq!(validate_revocation("logout", "alice", 0), Ok(()));
    assert_eq!(
        validate_revocation("logout", "alice", -1),
        Err(StoreError::InvalidIdentityOperation("revocation timestamp is invalid".to_owned()))
    );
}
