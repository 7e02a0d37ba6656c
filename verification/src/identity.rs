//! Identity vocabulary and the canonical forms the identity store accepts:
//! lifecycle states, service scopes and project roles by name, canonical
//! strings, canonical string sets and their order-independent digest, and
//! the checks on identity-provider and service-credential writes.
use vstd::prelude::*;
use vstd::relations::sorted_by;
use vstd::utf8::encode_utf8;

use crate::authz::{Principal, ProjectRole, ServiceScope};
use crate::encoding::{digest_eq, digest_from_slice, framed, push_bytes, push_framed_str, sha256, sha256_spec};
use crate::order::{lemma_text_le_total, sort_strings, text_le, views};
use crate::text::{byte_len, chars_eq, chars_of, concat_str, contains_char, is_padded, padded, str_eq, utf8_len};
use crate::StoreError;

verus! {

/// Largest number of values in an identity string set (aliases, groups).
pub const MAX_GROUPS: usize = 4096;

#[derive(Clone, Copy, Debug, PartialEq, Eq, Structural)]
pub enum IdentityLifecycle {
    Active,
    Disabled,
    Deleted,
}

impl IdentityLifecycle {
    pub open spec fn name(self) -> Seq<char> {
        match self {
            IdentityLifecycle::Active => "active"@,
            IdentityLifecycle::Disabled => "disabled"@,
            IdentityLifecycle::Deleted => "deleted"@,
        }
    }

    pub open spec fn from_name(s: Seq<char>) -> Option<IdentityLifecycle> {
        if s == "active"@ {
            Some(IdentityLifecycle::Active)
        } else if s == "disabled"@ {
            Some(IdentityLifecycle::Disabled)
        } else if s == "deleted"@ {
            Some(IdentityLifecycle::Deleted)
        } else {
            None
        }
    }

    pub fn as_str(self) -> (s: &'static str)
        ensures
            s@ == self.name(),
    {
        match self {
            IdentityLifecycle::Active => "active",
            IdentityLifecycle::Disabled => "disabled",
            IdentityLifecycle::Deleted => "deleted",
        }
    }

    pub fn parse(value: &str) -> (r: Result<IdentityLifecycle, StoreError>)
        ensures
            r matches Ok(v) ==> IdentityLifecycle::from_name(value@) == Some(v),
            r is Err ==> IdentityLifecycle::from_name(value@) is None,
            r matches Err(e) ==> e is InvalidIdentityOperation,
    {
        if str_eq(value, "active") {
            Ok(IdentityLifecycle::Active)
        } else if str_eq(value, "disabled") {
            Ok(IdentityLifecycle::Disabled)
        } else if str_eq(value, "deleted") {
            Ok(IdentityLifecycle::Deleted)
        } else {
            Err(StoreError::InvalidIdentityOperation("identity lifecycle state is unknown".to_owned()))
        }
    }
}

/// Parsing the stored name of a lifecycle state gives the state back.
pub proof fn law_identity_lifecycle_round_trip(v: IdentityLifecycle)
    ensures
        IdentityLifecycle::from_name(v.name()) == Some(v),
{
    reveal_strlit("active");
    reveal_strlit("disabled");
    reveal_strlit("deleted");
    assert("active"@.len() == 6);
    assert("disabled"@.len() == 8);
    assert("deleted"@.len() == 7);
}

/// Stored name of a service scope.
pub open spec fn scope_label(scope: ServiceScope) -> Seq<char> {
    match scope {
        ServiceScope::ProjectRead => "project_read"@,
        ServiceScope::BuildSubmit => "build_submit"@,
        ServiceScope::BuildCancel => "build_cancel"@,
        ServiceScope::SecretUse => "secret_use"@,
        ServiceScope::ProjectAdmin => "project_admin"@,
        ServiceScope::AuditRead => "audit_read"@,
        ServiceScope::SchedulerControl => "scheduler_control"@,
    }
}

pub open spec fn scope_from_label(s: Seq<char>) -> Option<ServiceScope> {
    if s == "project_read"@ {
        Some(ServiceScope::ProjectRead)
    } else if s == "build_submit"@ {
        Some(ServiceScope::BuildSubmit)
    } else if s == "build_cancel"@ {
        Some(ServiceScope::BuildCancel)
    } else if s == "secret_use"@ {
        Some(ServiceScope::SecretUse)
    } else if s == "project_admin"@ {
        Some(ServiceScope::ProjectAdmin)
    } else if s == "audit_read"@ {
        Some(ServiceScope::AuditRead)
    } else if s == "scheduler_control"@ {
        Some(ServiceScope::SchedulerControl)
    } else {
        None
    }
}

/// Stored name of a project role.
pub open spec fn role_label(role: ProjectRole) -> Seq<char> {
    match role {
        ProjectRole::Viewer => "viewer"@,
        ProjectRole::Developer => "developer"@,
        ProjectRole::Admin => "admin"@,
        ProjectRole::Owner => "owner"@,
    }
}

pub open spec fn role_from_label(s: Seq<char>) -> Option<ProjectRole> {
    if s == "viewer"@ {
        Some(ProjectRole::Viewer)
    } else if s == "developer"@ {
        Some(ProjectRole::Developer)
    } else if s == "admin"@ {
        Some(ProjectRole::Admin)
    } else if s == "owner"@ {
        Some(ProjectRole::Owner)
    } else {
        None
    }
}

pub fn scope_name(scope: ServiceScope) -> (s: &'static str)
    ensures
        s@ == scope_label(scope),
{
    match scope {
        ServiceScope::ProjectRead => "project_read",
        ServiceScope::BuildSubmit => "build_submit",
        ServiceScope::BuildCancel => "build_cancel",
        ServiceScope::SecretUse => "secret_use",
        ServiceScope::ProjectAdmin => "project_admin",
        ServiceScope::AuditRead => "audit_read",
        ServiceScope::SchedulerControl => "scheduler_control",
    }
}

pub fn parse_scope(value: &str) -> (r: Result<ServiceScope, StoreError>)
    ensures
        r matches Ok(v) ==> scope_from_label(value@) == Some(v),
        r is Err ==> scope_from_label(value@) is None,
        r matches Err(e) ==> e is InvalidIdentityOperation,
{
    if str_eq(value, "project_read") {
        Ok(ServiceScope::ProjectRead)
    } else if str_eq(value, "build_submit") {
        Ok(ServiceScope::BuildSubmit)
    } else if str_eq(value, "build_cancel") {
        Ok(ServiceScope::BuildCancel)
    } else if str_eq(value, "secret_use") {
        Ok(ServiceScope::SecretUse)
    } else if str_eq(value, "project_admin") {
        Ok(ServiceScope::ProjectAdmin)
    } else if str_eq(value, "audit_read") {
        Ok(ServiceScope::AuditRead)
    } else if str_eq(value, "scheduler_control") {
        Ok(ServiceScope::SchedulerControl)
    } else {
        Err(StoreError::InvalidIdentityOperation("service scope is unknown".to_owned()))
    }
}

pub fn parse_role(value: &str) -> (r: Result<ProjectRole, StoreError>)
    ensures
        r matches Ok(v) ==> role_from_label(value@) == Some(v),
        r is Err ==> role_from_label(value@) is None,
        r matches Err(e) ==> e is InvalidIdentityOperation,
{
    if str_eq(value, "viewer") {
        Ok(ProjectRole::Viewer)
    } else if str_eq(value, "developer") {
        Ok(ProjectRole::Developer)
    } else if str_eq(value, "admin") {
        Ok(ProjectRole::Admin)
    } else if str_eq(value, "owner") {
        Ok(ProjectRole::Owner)
    } else {
        Err(StoreError::InvalidIdentityOperation("project role is unknown".to_owned()))
    }
}

/// Parsing the stored name of a scope gives the scope back.
pub proof fn law_scope_name_round_trip(scope: ServiceScope)
    ensures
        scope_from_label(scope_label(scope)) == Some(scope),
{
    reveal_strlit("project_read");
    reveal_strlit("build_submit");
    reveal_strlit("build_cancel");
    reveal_strlit("secret_use");
    reveal_strlit("project_admin");
    reveal_strlit("audit_read");
    reveal_strlit("scheduler_control");
    assert("project_read"@.len() == 12);
    assert("build_submit"@.len() == 12);
    assert("build_cancel"@.len() == 12);
    assert("secret_use"@.len() == 10);
    assert("project_admin"@.len() == 13);
    assert("audit_read"@.len() == 10);
    assert("scheduler_control"@.len() == 17);
    assert("audit_read"@[0] == 'a');
    assert("build_cancel"@[0] == 'b');
    assert("build_cancel"@[6] == 'c');
    assert("build_submit"@[0] == 'b');
    assert("build_submit"@[6] == 's');
    assert("project_read"@[0] == 'p');
    assert("secret_use"@[0] == 's');
}

/// Parsing the stored name of a role gives the role back.
pub proof fn law_role_name_round_trip(role: ProjectRole)
    ensures
        role_from_label(role_label(role)) == Some(role),
{
    reveal_strlit("viewer");
    reveal_strlit("developer");
    reveal_strlit("admin");
    reveal_strlit("owner");
    assert("viewer"@.len() == 6);
    assert("developer"@.len() == 9);
    assert("admin"@.len() == 5);
    assert("owner"@.len() == 5);
    assert("admin"@[0] == 'a');
    assert("owner"@[0] == 'o');
}

/// Non-empty, at most `max` UTF-8 bytes, not padded with whitespace, and
/// free of NUL.
pub open spec fn canonical_text(s: Seq<char>, max: nat) -> bool {
    &&& s.len() > 0
    &&& byte_len(s) <= max
    &&& !is_padded(s)
    &&& !s.contains('\u{0}')
}

pub open spec fn canonical_message(label: Seq<char>) -> Seq<char> {
    label + " is empty, non-canonical, or too long"@
}

pub open spec fn duplicate_message(label: Seq<char>) -> Seq<char> {
    label + " values must be unique"@
}

pub fn validate_canonical(value: &str, label: &str, max: usize) -> (r: Result<(), StoreError>)
    ensures
        r is Ok <==> canonical_text(value@, max as nat),
        r matches Err(e) ==> e matches StoreError::InvalidIdentityOperation(m) && m@ == canonical_message(
            label@,
        ),
{
    let empty = chars_of(value).len() == 0;
    if empty || utf8_len(value) > max || padded(value) || contains_char(value, '\u{0}') {
        return Err(
            StoreError::InvalidIdentityOperation(
                concat_str(label, " is empty, non-canonical, or too long"),
            ),
        );
    }
    Ok(())
}

/// The value at `i` is canonical and differs from every earlier value.
pub open spec fn admissible_at(values: Seq<Seq<char>>, i: int) -> bool {
    &&& canonical_text(values[i], 512)
    &&& forall|j: int| 0 <= j < i ==> values[j] != #[trigger] values[i]
}

/// The first index at which the set is refused.
pub open spec fn is_first_refusal(values: Seq<Seq<char>>, i: int) -> bool {
    &&& 0 <= i < values.len()
    &&& !admissible_at(values, i)
    &&& forall|j: int| 0 <= j < i ==> admissible_at(values, j)
}

/// Why a string set is refused: too many values, or the first value that is
/// not canonical or repeats an earlier one.
pub open spec fn string_set_rejection(values: Seq<Seq<char>>, label: Seq<char>) -> Option<Seq<char>> {
    if values.len() > MAX_GROUPS {
        Some("identity string set exceeds its bounded size"@)
    } else if exists|i: int| is_first_refusal(values, i) {
        let i = choose|i: int| is_first_refusal(values, i);
        if !canonical_text(values[i], 512) {
            Some(canonical_message(label))
        } else {
            Some(duplicate_message(label))
        }
    } else {
        None
    }
}

proof fn lemma_first_refusal_unique(values: Seq<Seq<char>>, i: int, k: int)
    requires
        is_first_refusal(values, i),
        is_first_refusal(values, k),
    ensures
        i == k,
{
    if i < k {
        assert(admissible_at(values, i));
    } else if k < i {
        assert(admissible_at(values, k));
    }
}

/// Checks an identity string set (aliases, groups) and returns it in
/// canonical order: at most `MAX_GROUPS` values, each canonical and at most
/// 512 bytes, none repeated.
pub fn canonical_strings(values: &[String], label: &str) -> (r: Result<Vec<String>, StoreError>)
    ensures
        r is Ok <==> string_set_rejection(views(values@), label@) is None,
        r matches Err(e) ==> e matches StoreError::InvalidIdentityOperation(m)
            && string_set_rejection(views(values@), label@) == Some(m@),
        r matches Ok(out) ==> views(out@).to_multiset() == views(values@).to_multiset() && sorted_by(
            views(out@),
            |a: Seq<char>, b: Seq<char>| text_le(a, b),
        ),
{
    let ghost vs = views(values@);
    if values.len() > MAX_GROUPS {
        return Err(
            StoreError::InvalidIdentityOperation(
                "identity string set exceeds its bounded size".to_owned(),
            ),
        );
    }
    let mut accepted: Vec<String> = Vec::new();
    let mut keys: Vec<Vec<char>> = Vec::new();
    let mut i: usize = 0;
    while i < values.len()
        invariant
            i <= values@.len(),
            vs == views(values@),
            vs.len() == values@.len(),
            values@.len() <= MAX_GROUPS,
            accepted@.len() == i,
            keys@.len() == i,
            forall|j: int| 0 <= j < i ==> (#[trigger] accepted@[j])@ == vs[j],
            forall|j: int| 0 <= j < i ==> (#[trigger] keys@[j])@ == vs[j],
            forall|j: int| 0 <= j < i ==> admissible_at(vs, j),
        decreases values@.len() - i,
    {
        let value = &values[i];
        assert(vs[i as int] == value@);
        match validate_canonical(value.as_str(), label, 512) {
            Ok(()) => {},
            Err(e) => {
                proof {
                    assert(is_first_refusal(vs, i as int));
                    let k = choose|k: int| is_first_refusal(vs, k);
                    lemma_first_refusal_unique(vs, i as int, k);
                }
                return Err(e);
            },
        }
        let key = chars_of(value.as_str());
        let mut j: usize = 0;
        while j < i
            invariant
                i < values@.len(),
                vs == views(values@),
                values@.len() <= MAX_GROUPS,
                vs.len() == values@.len(),
                forall|q: int| 0 <= q < i ==> admissible_at(vs, q),
                canonical_text(vs[i as int], 512),
                j <= i,
                keys@.len() == i,
                key@ == vs[i as int],
                forall|q: int| 0 <= q < i ==> (#[trigger] keys@[q])@ == vs[q],
                forall|q: int| 0 <= q < j ==> vs[q] != vs[i as int],
            decreases i - j,
        {
            if chars_eq(&keys[j], &key) {
                proof {
                    assert(!admissible_at(vs, i as int));
                    assert(is_first_refusal(vs, i as int));
                    let k = choose|k: int| is_first_refusal(vs, k);
                    lemma_first_refusal_unique(vs, i as int, k);
                }
                return Err(StoreError::InvalidIdentityOperation(concat_str(label, " values must be unique")));
            }
            j = j + 1;
        }
        assert(admissible_at(vs, i as int));
        accepted.push(value.clone());
        keys.push(key);
        i = i + 1;
    }
    proof {
        assert(views(accepted@) =~= vs);
        if exists|k: int| is_first_refusal(vs, k) {
            let k = choose|k: int| is_first_refusal(vs, k);
            assert(admissible_at(vs, k));
        }
    }
    let sorted = sort_strings(&accepted);
    Ok(sorted)
}

/// Canonicalization forgets the order in which the values came: two
/// permutations of one accepted set give the same canonical list.
pub proof fn law_canonical_strings_order_independent(a: Seq<Seq<char>>, b: Seq<Seq<char>>, x: Seq<Seq<char>>, y: Seq<Seq<char>>)
    requires
        a.to_multiset() == b.to_multiset(),
        x.to_multiset() == a.to_multiset(),
        y.to_multiset() == b.to_multiset(),
        sorted_by(x, |p: Seq<char>, q: Seq<char>| text_le(p, q)),
        sorted_by(y, |p: Seq<char>, q: Seq<char>| text_le(p, q)),
    ensures
        x == y,
{
    lemma_text_le_total();
    vstd::seq_lib::lemma_sorted_unique(x, y, |p: Seq<char>, q: Seq<char>| text_le(p, q));
}

/// Domain-separation tag of the identity string-set digest.
pub open spec fn string_set_tag() -> Seq<u8> {
    encode_utf8("mcloving.identity.string-set.v1\u{0}"@)
}

/// Each value framed by its 8-byte big-endian byte length, in order.
pub open spec fn string_set_body(values: Seq<Seq<char>>) -> Seq<u8>
    decreases values.len(),
{
    if values.len() == 0 {
        Seq::empty()
    } else {
        string_set_body(values.drop_last()) + framed(encode_utf8(values.last()))
    }
}

pub open spec fn string_set_digest(values: Seq<Seq<char>>) -> Seq<u8> {
    sha256_spec(string_set_tag() + string_set_body(values))
}

/// Digest of a string set in the order given.
pub fn digest_strings(values: &[String]) -> (r: [u8; 32])
    ensures
        r@ == string_set_digest(views(values@)),
{
    let ghost vs = views(values@);
    let mut msg: Vec<u8> = Vec::new();
    push_bytes(&mut msg, "mcloving.identity.string-set.v1\u{0}".as_bytes());
    let ghost tag = msg@;
    let mut i: usize = 0;
    assert(vs.take(0) =~= Seq::<Seq<char>>::empty());
    while i < values.len()
        invariant
            i <= values@.len(),
            vs == views(values@),
            vs.len() == values@.len(),
            tag == string_set_tag(),
            msg@ == tag + string_set_body(vs.take(i as int)),
        decreases values@.len() - i,
    {
        push_framed_str(&mut msg, values[i].as_str());
        proof {
            let t = vs.take(i + 1);
            assert(t.drop_last() =~= vs.take(i as int));
            assert(t.last() == values@[i as int]@);
        }
        i = i + 1;
    }
    assert(vs.take(values@.len() as int) =~= vs);
    sha256(msg.as_slice())
}

/// Two permutations of one set, once canonicalized, have one digest.
pub proof fn law_string_set_digest_order_independent(a: Seq<Seq<char>>, b: Seq<Seq<char>>, x: Seq<Seq<char>>, y: Seq<Seq<char>>)
    requires
        a.to_multiset() == b.to_multiset(),
        x.to_multiset() == a.to_multiset(),
        y.to_multiset() == b.to_multiset(),
        sorted_by(x, |p: Seq<char>, q: Seq<char>| text_le(p, q)),
        sorted_by(y, |p: Seq<char>, q: Seq<char>| text_le(p, q)),
    ensures
        string_set_digest(x) == string_set_digest(y),
{
    law_canonical_strings_order_independent(a, b, x, y);
}

/// A stored 32-byte identity digest.
pub fn digest_array(value: &[u8]) -> (r: Result<[u8; 32], StoreError>)
    ensures
        r is Ok <==> value@.len() == 32,
        r matches Ok(d) ==> d@ == value@,
        r matches Err(e) ==> e is InvalidIdentityOperation,
{
    match digest_from_slice(value) {
        Some(d) => Ok(d),
        None => Err(StoreError::InvalidIdentityOperation("identity digest has an invalid length".to_owned())),
    }
}

/// An identity provider's configuration as written by an operator.
#[derive(Clone, Debug, PartialEq, Eq)]
pub struct IdentityProviderWrite {
    pub organization_id: u128,
    pub provider_id: u128,
    pub issuer: String,
    pub audience: String,
    pub authorization_endpoint: String,
    pub token_endpoint: String,
    pub jwks_uri: String,
    pub client_id: String,
    pub group_claim: String,
    pub configuration_generation: i64,
    pub configuration_digest: [u8; 32],
    pub jwks_generation: i64,
    pub jwks_digest: [u8; 32],
    pub enabled: bool,
    pub actor_subject: String,
}

/// An identity provider's stored configuration.
#[derive(Clone, Debug, PartialEq, Eq)]
pub struct IdentityProviderConfig {
    pub provider_id: u128,
    pub issuer: String,
    pub audience: String,
    pub authorization_endpoint: String,
    pub token_endpoint: String,
    pub jwks_uri: String,
    pub client_id: String,
    pub group_claim: String,
    pub configuration_generation: i64,
    pub configuration_digest: [u8; 32],
    pub jwks_generation: i64,
    pub jwks_digest: [u8; 32],
    pub enabled: bool,
}

#[derive(Clone, Debug, PartialEq, Eq)]
pub struct NewServiceCredential {
    pub organization_id: u128,
    pub credential_id: u128,
    pub identity_id: u128,
    pub generation: i64,
    pub token_digest: [u8; 32],
    pub issued_at_unix_ms: i64,
    pub expires_at_unix_ms: Option<i64>,
    pub actor_subject: String,
}

#[derive(Clone, Debug, PartialEq, Eq)]
pub struct SessionIssue {
    pub session_id: u128,
    pub token_digest: [u8; 32],
    pub refresh_token_digest: Option<[u8; 32]>,
    pub issued_at_unix_ms: i64,
    pub expires_at_unix_ms: i64,
    pub refresh_expires_at_unix_ms: Option<i64>,
}

/// The first provider field that is not canonical, in the order the fields
/// are checked, as its refusal message; then the generation rule.
pub open spec fn provider_rejection(input: IdentityProviderWrite) -> Option<Seq<char>> {
    if !canonical_text(input.issuer@, 2048) {
        Some(canonical_message("issuer"@))
    } else if !canonical_text(input.audience@, 512) {
        Some(canonical_message("audience"@))
    } else if !canonical_text(input.authorization_endpoint@, 2048) {
        Some(canonical_message("authorization endpoint"@))
    } else if !canonical_text(input.token_endpoint@, 2048) {
        Some(canonical_message("token endpoint"@))
    } else if !canonical_text(input.jwks_uri@, 2048) {
        Some(canonical_message("JWKS URI"@))
    } else if !canonical_text(input.client_id@, 512) {
        Some(canonical_message("client ID"@))
    } else if !canonical_text(input.group_claim@, 128) {
        Some(canonical_message("group claim"@))
    } else if !canonical_text(input.actor_subject@, 512) {
        Some(canonical_message("actor subject"@))
    } else if input.configuration_generation <= 0 || input.jwks_generation <= 0 {
        Some("identity provider generations must be positive"@)
    } else {
        None
    }
}

pub open spec fn refused_with(r: Result<(), StoreError>, rejection: Option<Seq<char>>) -> bool {
    match r {
        Ok(()) => rejection is None,
        Err(StoreError::InvalidIdentityOperation(m)) => rejection == Some(m@),
        Err(_) => false,
    }
}

pub fn validate_provider(input: &IdentityProviderWrite) -> (r: Result<(), StoreError>)
    ensures
        refused_with(r, provider_rejection(*input)),
{
    if let Err(e) = validate_canonical(input.issuer.as_str(), "issuer", 2048) {
        return Err(e);
    }
    if let Err(e) = validate_canonical(input.audience.as_str(), "audience", 512) {
        return Err(e);
    }
    if let Err(e) = validate_canonical(input.authorization_endpoint.as_str(), "authorization endpoint", 2048) {
        return Err(e);
    }
    if let Err(e) = validate_canonical(input.token_endpoint.as_str(), "token endpoint", 2048) {
        return Err(e);
    }
    if let Err(e) = validate_canonical(input.jwks_uri.as_str(), "JWKS URI", 2048) {
        return Err(e);
    }
    if let Err(e) = validate_canonical(input.client_id.as_str(), "client ID", 512) {
        return Err(e);
    }
    if let Err(e) = validate_canonical(input.group_claim.as_str(), "group claim", 128) {
        return Err(e);
    }
    if let Err(e) = validate_canonical(input.actor_subject.as_str(), "actor subject", 512) {
        return Err(e);
    }
    if input.configuration_generation <= 0 || input.jwks_generation <= 0 {
        return Err(
            StoreError::InvalidIdentityOperation("identity provider generations must be positive".to_owned()),
        );
    }
    Ok(())
}

pub open spec fn service_credential_rejection(input: NewServiceCredential) -> Option<Seq<char>> {
    if !canonical_text(input.actor_subject@, 512) {
        Some(canonical_message("actor subject"@))
    } else if input.generation <= 0 || input.issued_at_unix_ms < 0 {
        Some("service credential generation or timestamp is invalid"@)
    } else if input.expires_at_unix_ms matches Some(e) && e <= input.issued_at_unix_ms {
        Some("service credential expiry must follow issuance"@)
    } else {
        None
    }
}

pub fn validate_service_credential(input: &NewServiceCredential) -> (r: Result<(), StoreError>)
    ensures
        refused_with(r, service_credential_rejection(*input)),
{
    if let Err(e) = validate_canonical(input.actor_subject.as_str(), "actor subject", 512) {
        return Err(e);
    }
    if input.generation <= 0 || input.issued_at_unix_ms < 0 {
        return Err(
            StoreError::InvalidIdentityOperation(
                "service credential generation or timestamp is invalid".to_owned(),
            ),
        );
    }
    if let Some(expires) = input.expires_at_unix_ms {
        if expires <= input.issued_at_unix_ms {
            return Err(
                StoreError::InvalidIdentityOperation("service credential expiry must follow issuance".to_owned()),
            );
        }
    }
    Ok(())
}

/// The configuration a provider write stores: every field but the tenant
/// and the actor, unchanged.
pub fn provider_from_write(input: &IdentityProviderWrite) -> (c: IdentityProviderConfig)
    ensures
        c.provider_id == input.provider_id,
        c.issuer@ == input.issuer@,
        c.audience@ == input.audience@,
        c.authorization_endpoint@ == input.authorization_endpoint@,
        c.token_endpoint@ == input.token_endpoint@,
        c.jwks_uri@ == input.jwks_uri@,
        c.client_id@ == input.client_id@,
        c.group_claim@ == input.group_claim@,
        c.configuration_generation == input.configuration_generation,
        c.configuration_digest == input.configuration_digest,
        c.jwks_generation == input.jwks_generation,
        c.jwks_digest == input.jwks_digest,
        c.enabled == input.enabled,
{
    IdentityProviderConfig {
        provider_id: input.provider_id,
        issuer: input.issuer.clone(),
        audience: input.audience.clone(),
        authorization_endpoint: input.authorization_endpoint.clone(),
        token_endpoint: input.token_endpoint.clone(),
        jwks_uri: input.jwks_uri.clone(),
        client_id: input.client_id.clone(),
        group_claim: input.group_claim.clone(),
        configuration_generation: input.configuration_generation,
        configuration_digest: input.configuration_digest,
        jwks_generation: input.jwks_generation,
        jwks_digest: input.jwks_digest,
        enabled: input.enabled,
    }
}

/// A fresh session's lifetime: issued at a non-negative time, expiring
/// after it, with a refresh credential exactly when there is a refresh
/// expiry, and that expiry after the session's.
pub open spec fn session_lifetime_ok(issue: SessionIssue) -> bool {
    &&& issue.issued_at_unix_ms >= 0
    &&& issue.expires_at_unix_ms > issue.issued_at_unix_ms
    &&& issue.refresh_token_digest is Some == issue.refresh_expires_at_unix_ms is Some
    &&& !(issue.refresh_expires_at_unix_ms matches Some(r) && r <= issue.expires_at_unix_ms)
}

pub fn check_session_lifetime(issue: &SessionIssue) -> (r: Result<(), StoreError>)
    ensures
        r is Ok <==> session_lifetime_ok(*issue),
        r matches Err(e) ==> e is InvalidIdentityOperation,
{
    let refresh_mismatch = issue.refresh_token_digest.is_some() != issue.refresh_expires_at_unix_ms.is_some();
    let refresh_early = match issue.refresh_expires_at_unix_ms {
        Some(expires) => expires <= issue.expires_at_unix_ms,
        None => false,
    };
    if issue.issued_at_unix_ms < 0 || issue.expires_at_unix_ms <= issue.issued_at_unix_ms || refresh_mismatch
        || refresh_early {
        return Err(StoreError::InvalidIdentityOperation("session lifetime is invalid".to_owned()));
    }
    Ok(())
}

/// What a lifecycle transition does to an identity at `current` with
/// generation `current_generation`: `None` leaves it as it is, `Some(g)`
/// moves it to `next` at generation `g`.
pub open spec fn lifecycle_step(
    current: IdentityLifecycle,
    current_generation: i64,
    expected_generation: i64,
    next: IdentityLifecycle,
) -> Result<Option<int>, ()> {
    if current_generation != expected_generation {
        Err(())
    } else if current == IdentityLifecycle::Deleted && next != IdentityLifecycle::Deleted {
        Err(())
    } else if current == next {
        Ok(None)
    } else if current_generation + 1 > i64::MAX {
        Err(())
    } else {
        Ok(Some(current_generation + 1))
    }
}

/// The plan a transition decision stands for, its error forgotten.
pub open spec fn generation_plan(r: Result<Option<i64>, StoreError>) -> Result<Option<int>, ()> {
    match r {
        Ok(Some(g)) => Ok(Some(g as int)),
        Ok(None) => Ok(None),
        Err(_) => Err(()),
    }
}

/// Decides a lifecycle transition of a stored identity, given its stored
/// state name and generation and the caller's expected generation.
pub fn plan_lifecycle_transition(
    current: &str,
    current_generation: i64,
    expected_generation: i64,
    next: IdentityLifecycle,
) -> (r: Result<Option<i64>, StoreError>)
    ensures
        IdentityLifecycle::from_name(current@) is None ==> (r matches Err(e) && (if current_generation
            != expected_generation {
            e is IdentityConflict
        } else {
            e is InvalidIdentityOperation
        })),
        IdentityLifecycle::from_name(current@) matches Some(state) ==> {
            &&& generation_plan(r) == lifecycle_step(state, current_generation, expected_generation, next)
            &&& r matches Err(e) ==> (if current_generation == expected_generation && state != next && !(
            state == IdentityLifecycle::Deleted && next != IdentityLifecycle::Deleted) {
                e is InvalidIdentityOperation
            } else {
                e is IdentityConflict
            })
        },
{
    if current_generation != expected_generation {
        return Err(StoreError::IdentityConflict("identity lifecycle generation is stale".to_owned()));
    }
    let state = match IdentityLifecycle::parse(current) {
        Ok(state) => state,
        Err(e) => return Err(e),
    };
    if state == IdentityLifecycle::Deleted && next != IdentityLifecycle::Deleted {
        return Err(StoreError::IdentityConflict("deleted identity cannot be reactivated or reused".to_owned()));
    }
    if state == next {
        return Ok(None);
    }
    match current_generation.checked_add(1) {
        Some(g) => Ok(Some(g)),
        None => Err(StoreError::InvalidIdentityOperation("identity generation overflow".to_owned())),
    }
}

/// A deleted identity stays deleted: no transition out of it is ever planned.
pub proof fn law_deleted_identities_stay_deleted(current_generation: i64, expected_generation: i64, next: IdentityLifecycle)
    requires
        next != IdentityLifecycle::Deleted,
    ensures
        lifecycle_step(IdentityLifecycle::Deleted, current_generation, expected_generation, next) is Err,
{
}

/// A planned lifecycle change always moves the generation forward by one.
pub proof fn law_lifecycle_generation_advances(
    current: IdentityLifecycle,
    current_generation: i64,
    expected_generation: i64,
    next: IdentityLifecycle,
    g: int,
)
    requires
        lifecycle_step(current, current_generation, expected_generation, next) == Ok::<Option<int>, ()>(Some(g)),
    ensures
        g == expected_generation + 1,
        current != next,
{
}

/// Decides an enable/disable transition of an identity provider: `None`
/// when the provider is already in the requested state, else the next
/// configuration generation.
pub fn plan_provider_enabled_transition(
    current_generation: i64,
    current_enabled: bool,
    expected_generation: i64,
    enabled: bool,
) -> (r: Result<Option<i64>, StoreError>)
    ensures
        current_generation != expected_generation ==> (r matches Err(e) && e is IdentityConflict),
        current_generation == expected_generation && current_enabled == enabled ==> r == Ok::<
            Option<i64>,
            StoreError,
        >(None),
        current_generation == expected_generation && current_enabled != enabled ==> (if current_generation
            < i64::MAX {
            r == Ok::<Option<i64>, StoreError>(Some((current_generation + 1) as i64))
        } else {
            (r matches Err(e) && e is InvalidIdentityOperation)
        }),
{
    if current_generation != expected_generation {
        return Err(
            StoreError::IdentityConflict("identity-provider configuration generation is stale".to_owned()),
        );
    }
    if current_enabled == enabled {
        return Ok(None);
    }
    match current_generation.checked_add(1) {
        Some(g) => Ok(Some(g)),
        None => Err(
            StoreError::InvalidIdentityOperation("identity-provider configuration generation overflow".to_owned()),
        ),
    }
}

/// The stored trust of an OIDC provider, as a session issue reads it.
pub struct ProviderTrust<'a> {
    pub issuer: &'a str,
    pub configuration_generation: i64,
    pub jwks_generation: i64,
    pub enabled: bool,
}

/// Checks that a login's claims come from the provider's current, enabled
/// trust: same issuer and same configuration and key-set generations.
pub fn check_provider_trust(
    provider: Option<ProviderTrust>,
    issuer: &str,
    configuration_generation: i64,
    jwks_generation: i64,
) -> (r: Result<(), StoreError>)
    ensures
        match provider {
            None => r matches Err(StoreError::IdentityConflict(m)) && m@ == "OIDC provider is unknown"@,
            Some(p) => if p.enabled && p.issuer@ == issuer@ && p.configuration_generation
                == configuration_generation && p.jwks_generation == jwks_generation {
                r is Ok
            } else {
                r matches Err(StoreError::IdentityConflict(m)) && m@
                    == "OIDC issuer or provider generation does not match current trust"@
            },
        },
{
    match provider {
        None => Err(StoreError::IdentityConflict("OIDC provider is unknown".to_owned())),
        Some(p) => {
            if !p.enabled || !str_eq(p.issuer, issuer) || p.configuration_generation != configuration_generation
                || p.jwks_generation != jwks_generation {
                return Err(
                    StoreError::IdentityConflict(
                        "OIDC issuer or provider generation does not match current trust".to_owned(),
                    ),
                );
            }
            Ok(())
        },
    }
}

/// Checks that a login maps to a human identity that is active, given the
/// mapped identity's kind and lifecycle state.
pub fn check_mapped_identity(identity: Option<(&str, &str)>) -> (r: Result<(), StoreError>)
    ensures
        match identity {
            None => r matches Err(StoreError::IdentityConflict(m)) && m@ == "OIDC identity is not mapped"@,
            Some((kind, lifecycle)) => if kind@ == "human"@ && lifecycle@ == "active"@ {
                r is Ok
            } else {
                r matches Err(StoreError::IdentityConflict(m)) && m@ == "OIDC identity is disabled or deleted"@
            },
        },
{
    match identity {
        None => Err(StoreError::IdentityConflict("OIDC identity is not mapped".to_owned())),
        Some((kind, lifecycle)) => {
            if !str_eq(kind, "human") || !str_eq(lifecycle, "active") {
                return Err(StoreError::IdentityConflict("OIDC identity is disabled or deleted".to_owned()));
            }
            Ok(())
        },
    }
}

/// The group generation a login leaves an identity at: unchanged when the
/// login's group digest matches the stored one, else one more, and whether
/// it changed.
pub fn next_group_generation(stored_digest: &[u8; 32], login_digest: &[u8; 32], generation: i64) -> (r:
    Result<(i64, bool), StoreError>)
    ensures
        stored_digest@ == login_digest@ ==> r == Ok::<(i64, bool), StoreError>((generation, false)),
        stored_digest@ != login_digest@ && generation < i64::MAX ==> r == Ok::<(i64, bool), StoreError>(
            ((generation + 1) as i64, true),
        ),
        stored_digest@ != login_digest@ && generation == i64::MAX ==> (r matches Err(
            StoreError::InvalidIdentityOperation(m),
        ) && m@ == "group generation overflow"@),
{
    if digest_eq(stored_digest, login_digest) {
        return Ok((generation, false));
    }
    if generation == i64::MAX {
        return Err(StoreError::InvalidIdentityOperation("group generation overflow".to_owned()));
    }
    Ok((generation + 1, true))
}

/// A rotated session carries a rotating refresh credential and a refresh
/// expiry, and is issued at a non-negative time before it expires.
pub fn check_rotation_request(issue: &SessionIssue) -> (r: Result<(), StoreError>)
    ensures
        issue.refresh_token_digest is None ==> (r matches Err(StoreError::InvalidIdentityOperation(m)) && m@
            == "a refreshed session requires a rotating refresh credential"@),
        issue.refresh_token_digest is Some && issue.refresh_expires_at_unix_ms is None ==> (r matches Err(
            StoreError::InvalidIdentityOperation(m),
        ) && m@ == "a refreshed session requires a refresh expiry"@),
        issue.refresh_token_digest is Some && issue.refresh_expires_at_unix_ms is Some ==> if issue.issued_at_unix_ms
            >= 0 && issue.expires_at_unix_ms > issue.issued_at_unix_ms {
            r is Ok
        } else {
            r matches Err(StoreError::InvalidIdentityOperation(m)) && m@ == "refreshed session lifetime is invalid"@
        },
{
    if issue.refresh_token_digest.is_none() {
        return Err(
            StoreError::InvalidIdentityOperation(
                "a refreshed session requires a rotating refresh credential".to_owned(),
            ),
        );
    }
    if issue.refresh_expires_at_unix_ms.is_none() {
        return Err(StoreError::InvalidIdentityOperation("a refreshed session requires a refresh expiry".to_owned()));
    }
    if issue.issued_at_unix_ms < 0 || issue.expires_at_unix_ms <= issue.issued_at_unix_ms {
        return Err(StoreError::InvalidIdentityOperation("refreshed session lifetime is invalid".to_owned()));
    }
    Ok(())
}

/// A rotation keeps the refresh family's absolute expiry, which must exist
/// and lie after the new access expiry; gives that absolute expiry.
pub fn check_rotation_window(expires_at_unix_ms: i64, absolute_refresh_expiry: Option<i64>) -> (r: Result<
    i64,
    StoreError,
>)
    ensures
        match absolute_refresh_expiry {
            None => r matches Err(StoreError::IdentityConflict(m)) && m@
                == "refresh credential has no absolute expiry"@,
            Some(a) => if expires_at_unix_ms < a {
                r == Ok::<i64, StoreError>(a)
            } else {
                r matches Err(StoreError::IdentityConflict(m)) && m@
                    == "refresh credential is too close to its absolute expiry; reauthentication is required"@
            },
        },
{
    let absolute = match absolute_refresh_expiry {
        None => {
            return Err(StoreError::IdentityConflict("refresh credential has no absolute expiry".to_owned()));
        },
        Some(a) => a,
    };
    if expires_at_unix_ms >= absolute {
        return Err(
            StoreError::IdentityConflict(
                "refresh credential is too close to its absolute expiry; reauthentication is required".to_owned(),
            ),
        );
    }
    Ok(absolute)
}

#[derive(Clone, Debug, PartialEq, Eq)]
pub struct NewHumanIdentity {
    pub organization_id: u128,
    pub identity_id: u128,
    pub subject: String,
    pub provider_id: u128,
    pub external_subject: String,
    pub source_realm_digest: [u8; 32],
    pub source_identity_id: String,
    pub source_membership_generation: i64,
    pub alias_history: Vec<String>,
    pub provenance_digest: [u8; 32],
    pub actor_subject: String,
}

/// A service identity and its explicit scopes, each named once.
#[derive(Clone, Debug, PartialEq, Eq)]
pub struct NewServiceIdentity {
    pub organization_id: u128,
    pub identity_id: u128,
    pub subject: String,
    pub scopes: Vec<ServiceScope>,
    pub actor_subject: String,
}

#[derive(Clone, Debug, PartialEq, Eq)]
pub struct LoginAttempt {
    pub organization_id: u128,
    pub attempt_id: u128,
    pub provider_id: u128,
    pub state_digest: [u8; 32],
    pub nonce_digest: [u8; 32],
    pub pkce_verifier: String,
    pub redirect_uri: String,
    pub provider_configuration_generation: i64,
    pub expires_at_unix_ms: i64,
}

#[derive(Clone, Debug, PartialEq, Eq)]
pub struct OidcIdentityClaims {
    pub organization_id: u128,
    pub provider_id: u128,
    pub issuer: String,
    pub external_subject: String,
    pub groups: Vec<String>,
    pub provider_configuration_generation: i64,
    pub provider_jwks_generation: i64,
    pub id_token_digest: [u8; 32],
}

/// A stored service credential, without its secret.
#[derive(Clone, Copy, Debug, PartialEq, Eq, Structural)]
pub struct ServiceCredential {
    pub credential_id: u128,
    pub identity_id: u128,
    pub generation: i64,
    pub issued_at_unix_ms: i64,
    pub expires_at_unix_ms: Option<i64>,
    pub revoked_at_unix_ms: Option<i64>,
}

/// A stored human session, without its tokens.
#[derive(Clone, Copy, Debug, PartialEq, Eq, Structural)]
pub struct SessionView {
    pub session_id: u128,
    pub identity_id: u128,
    pub identity_lifecycle_generation: i64,
    pub group_generation: i64,
    pub issued_at_unix_ms: i64,
    pub expires_at_unix_ms: i64,
    pub refresh_expires_at_unix_ms: Option<i64>,
    pub revoked_at_unix_ms: Option<i64>,
}

/// The identity a presented token resolves to, with its principal.
#[derive(Clone, Debug, PartialEq, Eq)]
pub struct AuthenticatedIdentity {
    pub identity_id: u128,
    pub principal: Principal,
    pub lifecycle: IdentityLifecycle,
    pub lifecycle_generation: i64,
    pub group_generation: i64,
    pub session_id: Option<u128>,
    pub service_credential_id: Option<u128>,
}

/// Checks a human identity's provisioning request and gives its alias
/// history in canonical order: canonical subject, external subject, source
/// identity and actor, a positive membership generation, and a canonical
/// alias set.
pub fn validate_human_identity(input: &NewHumanIdentity) -> (r: Result<Vec<String>, StoreError>)
    ensures
        r is Ok <==> (canonical_text(input.subject@, 512) && canonical_text(input.external_subject@, 512)
            && canonical_text(input.source_identity_id@, 512) && canonical_text(input.actor_subject@, 512)
            && input.source_membership_generation > 0 && string_set_rejection(views(input.alias_history@), "alias"@)
            is None),
        r matches Err(e) ==> e is InvalidIdentityOperation,
        !canonical_text(input.subject@, 512) ==> (r matches Err(StoreError::InvalidIdentityOperation(m)) && m@
            == canonical_message("identity subject"@)),
        canonical_text(input.subject@, 512) && canonical_text(input.external_subject@, 512) && canonical_text(
            input.source_identity_id@,
            512,
        ) && canonical_text(input.actor_subject@, 512) && input.source_membership_generation <= 0 ==> (r matches Err(
            StoreError::InvalidIdentityOperation(m),
        ) && m@ == "source membership generation must be positive"@),
        r matches Ok(aliases) ==> views(aliases@).to_multiset() == views(input.alias_history@).to_multiset()
            && sorted_by(views(aliases@), |a: Seq<char>, b: Seq<char>| text_le(a, b)),
{
    validate_canonical(input.subject.as_str(), "identity subject", 512)?;
    validate_canonical(input.external_subject.as_str(), "external subject", 512)?;
    validate_canonical(input.source_identity_id.as_str(), "source identity ID", 512)?;
    validate_canonical(input.actor_subject.as_str(), "actor subject", 512)?;
    if input.source_membership_generation <= 0 {
        return Err(
            StoreError::InvalidIdentityOperation("source membership generation must be positive".to_owned()),
        );
    }
    canonical_strings(input.alias_history.as_slice(), "alias")
}

/// Checks a service identity's provisioning request: canonical subject and
/// actor, and at least one explicit scope.
pub fn validate_service_identity(input: &NewServiceIdentity) -> (r: Result<(), StoreError>)
    ensures
        r is Ok <==> (canonical_text(input.subject@, 512) && canonical_text(input.actor_subject@, 512)
            && input.scopes@.len() > 0),
        r matches Err(e) ==> e is InvalidIdentityOperation,
        canonical_text(input.subject@, 512) && canonical_text(input.actor_subject@, 512) && input.scopes@.len()
            == 0 ==> (r matches Err(StoreError::InvalidIdentityOperation(m)) && m@
            == "service identity must have at least one explicit scope"@),
{
    validate_canonical(input.subject.as_str(), "service subject", 512)?;
    validate_canonical(input.actor_subject.as_str(), "actor subject", 512)?;
    if input.scopes.len() == 0 {
        return Err(
            StoreError::InvalidIdentityOperation("service identity must have at least one explicit scope".to_owned()),
        );
    }
    Ok(())
}

/// A login attempt records a canonical PKCE verifier of 43 to 128 bytes, a
/// canonical redirect URI, a positive provider generation and a
/// non-negative expiry.
pub fn validate_login_attempt(input: &LoginAttempt) -> (r: Result<(), StoreError>)
    ensures
        r is Ok <==> (canonical_text(input.pkce_verifier@, 128) && canonical_text(input.redirect_uri@, 2048)
            && byte_len(input.pkce_verifier@) >= 43 && input.provider_configuration_generation > 0
            && input.expires_at_unix_ms >= 0),
        r matches Err(e) ==> e is InvalidIdentityOperation,
        canonical_text(input.pkce_verifier@, 128) && canonical_text(input.redirect_uri@, 2048) && !(byte_len(
            input.pkce_verifier@,
        ) >= 43 && input.provider_configuration_generation > 0 && input.expires_at_unix_ms >= 0) ==> (r matches Err(
            StoreError::InvalidIdentityOperation(m),
        ) && m@ == "OIDC login attempt bounds are invalid"@),
{
    validate_canonical(input.pkce_verifier.as_str(), "PKCE verifier", 128)?;
    validate_canonical(input.redirect_uri.as_str(), "redirect URI", 2048)?;
    if utf8_len(input.pkce_verifier.as_str()) < 43 || input.provider_configuration_generation <= 0
        || input.expires_at_unix_ms < 0 {
        return Err(StoreError::InvalidIdentityOperation("OIDC login attempt bounds are invalid".to_owned()));
    }
    Ok(())
}

/// A login attempt is recorded only against the provider's current
/// configuration generation.
pub fn check_login_provider(current_generation: Option<i64>, attempt_generation: i64) -> (r: Result<(), StoreError>)
    ensures
        match current_generation {
            None => r matches Err(StoreError::IdentityConflict(m)) && m@ == "OIDC provider is unavailable"@,
            Some(g) => if g == attempt_generation {
                r is Ok
            } else {
                r matches Err(StoreError::IdentityConflict(m)) && m@
                    == "OIDC login attempt uses a stale provider generation"@
            },
        },
{
    match current_generation {
        None => Err(StoreError::IdentityConflict("OIDC provider is unavailable".to_owned())),
        Some(g) => if g != attempt_generation {
            Err(StoreError::IdentityConflict("OIDC login attempt uses a stale provider generation".to_owned()))
        } else {
            Ok(())
        },
    }
}

/// A callback consumes a known login state once, before it expires, under
/// the provider generation it was created with. `state` holds whether the
/// state was consumed already, its expiry and its generation.
pub fn check_login_callback(
    now_unix_ms: i64,
    state: Option<(bool, i64, i64)>,
    current_generation: Option<i64>,
) -> (r: Result<(), StoreError>)
    ensures
        now_unix_ms < 0 ==> (r matches Err(StoreError::InvalidIdentityOperation(m)) && m@
            == "OIDC callback timestamp is invalid"@),
        now_unix_ms >= 0 ==> match state {
            None => r matches Err(StoreError::IdentityConflict(m)) && m@ == "OIDC state is unknown"@,
            Some((consumed, expires, generation)) => if consumed || now_unix_ms > expires {
                r matches Err(StoreError::IdentityConflict(m)) && m@ == "OIDC state is expired or already consumed"@
            } else {
                match current_generation {
                    None => r matches Err(StoreError::IdentityConflict(m)) && m@ == "OIDC provider is unavailable"@,
                    Some(g) => if g == generation {
                        r is Ok
                    } else {
                        r matches Err(StoreError::IdentityConflict(m)) && m@
                            == "OIDC state was created under a stale provider generation"@
                    },
                }
            },
        },
{
    if now_unix_ms < 0 {
        return Err(StoreError::InvalidIdentityOperation("OIDC callback timestamp is invalid".to_owned()));
    }
    let (consumed, expires, generation) = match state {
        None => {
            return Err(StoreError::IdentityConflict("OIDC state is unknown".to_owned()));
        },
        Some(s) => s,
    };
    if consumed || now_unix_ms > expires {
        return Err(StoreError::IdentityConflict("OIDC state is expired or already consumed".to_owned()));
    }
    match current_generation {
        None => Err(StoreError::IdentityConflict("OIDC provider is unavailable".to_owned())),
        Some(g) => if g != generation {
            Err(
                StoreError::IdentityConflict(
                    "OIDC state was created under a stale provider generation".to_owned(),
                ),
            )
        } else {
            Ok(())
        },
    }
}

/// Checks a login's claims and gives its groups in canonical order:
/// canonical issuer and external subject, and a canonical group set.
pub fn validate_login_claims(claims: &OidcIdentityClaims) -> (r: Result<Vec<String>, StoreError>)
    ensures
        r is Ok <==> (canonical_text(claims.issuer@, 2048) && canonical_text(claims.external_subject@, 512)
            && string_set_rejection(views(claims.groups@), "OIDC group"@) is None),
        r matches Err(e) ==> e is InvalidIdentityOperation,
        r matches Ok(groups) ==> views(groups@).to_multiset() == views(claims.groups@).to_multiset() && sorted_by(
            views(groups@),
            |a: Seq<char>, b: Seq<char>| text_le(a, b),
        ),
{
    validate_canonical(claims.issuer.as_str(), "OIDC issuer", 2048)?;
    validate_canonical(claims.external_subject.as_str(), "OIDC subject", 512)?;
    canonical_strings(claims.groups.as_slice(), "OIDC group")
}

/// Which credential an API token's digest binds to.
#[derive(Clone, Copy, Debug, PartialEq, Eq, Structural)]
pub enum TokenOwner {
    Session,
    ServiceCredential,
}

/// Resolves an API token from whether its digest names a live session and
/// whether it names a live service credential: exactly one may match.
pub fn resolve_token_owner(now_unix_ms: i64, session_found: bool, service_found: bool) -> (r: Result<
    TokenOwner,
    StoreError,
>)
    ensures
        now_unix_ms < 0 ==> (r matches Err(StoreError::InvalidIdentityOperation(m)) && m@
            == "authentication timestamp is invalid"@),
        now_unix_ms >= 0 && session_found && service_found ==> (r matches Err(StoreError::IdentityConflict(m)) && m@
            == "credential digest is ambiguously bound"@),
        now_unix_ms >= 0 && session_found && !service_found ==> r == Ok::<TokenOwner, StoreError>(TokenOwner::Session),
        now_unix_ms >= 0 && !session_found && service_found ==> r == Ok::<TokenOwner, StoreError>(
            TokenOwner::ServiceCredential,
        ),
        now_unix_ms >= 0 && !session_found && !service_found ==> (r matches Err(StoreError::IdentityConflict(m))
            && m@ == "credential is unknown, stale, expired, or revoked"@),
{
    if now_unix_ms < 0 {
        return Err(StoreError::InvalidIdentityOperation("authentication timestamp is invalid".to_owned()));
    }
    if session_found && service_found {
        return Err(StoreError::IdentityConflict("credential digest is ambiguously bound".to_owned()));
    }
    if session_found {
        Ok(TokenOwner::Session)
    } else if service_found {
        Ok(TokenOwner::ServiceCredential)
    } else {
        Err(StoreError::IdentityConflict("credential is unknown, stale, expired, or revoked".to_owned()))
    }
}

/// A revocation gives a canonical reason of at most 256 bytes, a canonical
/// actor and a non-negative time.
pub fn validate_revocation(reason: &str, actor_subject: &str, now_unix_ms: i64) -> (r: Result<(), StoreError>)
    ensures
        r is Ok <==> (canonical_text(reason@, 256) && canonical_text(actor_subject@, 512) && now_unix_ms >= 0),
        r matches Err(e) ==> e is InvalidIdentityOperation,
        !canonical_text(reason@, 256) ==> (r matches Err(StoreError::InvalidIdentityOperation(m)) && m@
            == canonical_message("revocation reason"@)),
        canonical_text(reason@, 256) && canonical_text(actor_subject@, 512) && now_unix_ms < 0 ==> (r matches Err(
            StoreError::InvalidIdentityOperation(m),
        ) && m@ == "revocation timestamp is invalid"@),
{
    validate_canonical(reason, "revocation reason", 256)?;
    validate_canonical(actor_subject, "actor subject", 512)?;
    if now_unix_ms < 0 {
        return Err(StoreError::InvalidIdentityOperation("revocation timestamp is invalid".to_owned()));
    }
    Ok(())
}

} // verus!
