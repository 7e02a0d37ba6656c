//! Migration of external read consumers from Jenkins to the McLoving public
//! API: the read resources and their canonical endpoints, the checks on a
//! consumer write, its binding and contract digests, and the rule by which
//! read authority alternates between the two systems.
use vstd::prelude::*;
use vstd::utf8::encode_utf8;

use crate::authz::{first_denied, first_denied_action, Action, Principal};
use crate::encoding::{
    digest_eq, framed, i64_be, id_bytes, is_zero_digest, push_framed, push_framed_i64, push_framed_id,
    push_framed_str, push_framed_u32, push_framed_u64, sha256, sha256_spec, u32_be, u64_be, zero_digest,
};
use crate::identity::canonical_text;
use crate::migration::{http_endpoint, is_http_endpoint, opt_digest_bytes, push_framed_opt_digest};
use crate::text::{chars_of, concat_str, contains_char, padded, starts_with, str_eq, str_starts_with, utf8_len};
use crate::StoreError;

verus! {

#[derive(Clone, Copy, Debug, PartialEq, Eq, Structural)]
pub enum ExternalReadAuthority {
    JenkinsSource,
    McLovingTarget,
}

impl ExternalReadAuthority {
    pub open spec fn name(self) -> Seq<char> {
        match self {
            ExternalReadAuthority::JenkinsSource => "jenkins_source"@,
            ExternalReadAuthority::McLovingTarget => "mcloving_target"@,
        }
    }

    pub fn as_str(self) -> (s: &'static str)
        ensures
            s@ == self.name(),
    {
        match self {
            ExternalReadAuthority::JenkinsSource => "jenkins_source",
            ExternalReadAuthority::McLovingTarget => "mcloving_target",
        }
    }
}

/// A kind of data a Jenkins consumer reads, in canonical order.
#[derive(Clone, Copy, Debug, PartialEq, Eq, Structural)]
pub enum ExternalReadResource {
    Artifact,
    ArtifactContent,
    BuildGraph,
    BuildStatus,
    JobMetadata,
    Log,
    Queue,
    TestResult,
}

impl ExternalReadResource {
    pub open spec fn name(self) -> Seq<char> {
        match self {
            ExternalReadResource::Artifact => "artifact"@,
            ExternalReadResource::ArtifactContent => "artifact_content"@,
            ExternalReadResource::BuildGraph => "build_graph"@,
            ExternalReadResource::BuildStatus => "build_status"@,
            ExternalReadResource::JobMetadata => "job_metadata"@,
            ExternalReadResource::Log => "log"@,
            ExternalReadResource::Queue => "queue"@,
            ExternalReadResource::TestResult => "test_result"@,
        }
    }

    /// Position in the canonical order, the order of declaration.
    pub open spec fn rank(self) -> int {
        match self {
            ExternalReadResource::Artifact => 0,
            ExternalReadResource::ArtifactContent => 1,
            ExternalReadResource::BuildGraph => 2,
            ExternalReadResource::BuildStatus => 3,
            ExternalReadResource::JobMetadata => 4,
            ExternalReadResource::Log => 5,
            ExternalReadResource::Queue => 6,
            ExternalReadResource::TestResult => 7,
        }
    }

    pub open spec fn at_rank(k: int) -> ExternalReadResource {
        if k == 0 {
            ExternalReadResource::Artifact
        } else if k == 1 {
            ExternalReadResource::ArtifactContent
        } else if k == 2 {
            ExternalReadResource::BuildGraph
        } else if k == 3 {
            ExternalReadResource::BuildStatus
        } else if k == 4 {
            ExternalReadResource::JobMetadata
        } else if k == 5 {
            ExternalReadResource::Log
        } else if k == 6 {
            ExternalReadResource::Queue
        } else {
            ExternalReadResource::TestResult
        }
    }

    /// Every resource, in canonical order.
    pub fn all() -> (r: Vec<ExternalReadResource>)
        ensures
            r@.len() == 8,
            forall|k: int| 0 <= k < 8 ==> #[trigger] r@[k] == ExternalReadResource::at_rank(k),
    {
        vec![
            ExternalReadResource::Artifact,
            ExternalReadResource::ArtifactContent,
            ExternalReadResource::BuildGraph,
            ExternalReadResource::BuildStatus,
            ExternalReadResource::JobMetadata,
            ExternalReadResource::Log,
            ExternalReadResource::Queue,
            ExternalReadResource::TestResult,
        ]
    }

    pub fn as_str(self) -> (s: &'static str)
        ensures
            s@ == self.name(),
    {
        match self {
            ExternalReadResource::Artifact => "artifact",
            ExternalReadResource::ArtifactContent => "artifact_content",
            ExternalReadResource::BuildGraph => "build_graph",
            ExternalReadResource::BuildStatus => "build_status",
            ExternalReadResource::JobMetadata => "job_metadata",
            ExternalReadResource::Log => "log",
            ExternalReadResource::Queue => "queue",
            ExternalReadResource::TestResult => "test_result",
        }
    }

    pub open spec fn action(self) -> Action {
        match self {
            ExternalReadResource::Artifact | ExternalReadResource::ArtifactContent => Action::ArtifactRead,
            ExternalReadResource::Log => Action::LogRead,
            ExternalReadResource::TestResult => Action::TestRead,
            ExternalReadResource::BuildGraph | ExternalReadResource::BuildStatus | ExternalReadResource::JobMetadata
            | ExternalReadResource::Queue => Action::ProjectView,
        }
    }

    /// The action a McLoving identity needs to read the resource.
    pub fn required_action(self) -> (a: Action)
        ensures
            a == self.action(),
    {
        match self {
            ExternalReadResource::Artifact | ExternalReadResource::ArtifactContent => Action::ArtifactRead,
            ExternalReadResource::Log => Action::LogRead,
            ExternalReadResource::TestResult => Action::TestRead,
            ExternalReadResource::BuildGraph | ExternalReadResource::BuildStatus | ExternalReadResource::JobMetadata
            | ExternalReadResource::Queue => Action::ProjectView,
        }
    }

    pub open spec fn endpoint_path(self) -> Seq<char> {
        match self {
            ExternalReadResource::Artifact => "/api/v1/organizations/{organization}/projects/{project}/builds/{build}/artifacts"@,
            ExternalReadResource::ArtifactContent => "/api/v1/organizations/{organization}/projects/{project}/builds/{build}/artifacts/content"@,
            ExternalReadResource::BuildGraph => "/api/v1/organizations/{organization}/projects/{project}/builds/{build}/graph"@,
            ExternalReadResource::BuildStatus => "/api/v1/organizations/{organization}/projects/{project}/builds/{build}"@,
            ExternalReadResource::JobMetadata => "/api/v1/organizations/{organization}/projects/{project}/pipelines"@,
            ExternalReadResource::Log => "/api/v1/organizations/{organization}/projects/{project}/builds/{build}/logs"@,
            ExternalReadResource::Queue => "/api/v1/organizations/{organization}/projects/{project}/builds"@,
            ExternalReadResource::TestResult => "/api/v1/organizations/{organization}/projects/{project}/builds/{build}/tests"@,
        }
    }

    /// The McLoving v1 path that serves the resource.
    pub fn endpoint(self) -> (s: &'static str)
        ensures
            s@ == self.endpoint_path(),
    {
        match self {
            ExternalReadResource::Artifact => "/api/v1/organizations/{organization}/projects/{project}/builds/{build}/artifacts",
            ExternalReadResource::ArtifactContent => "/api/v1/organizations/{organization}/projects/{project}/builds/{build}/artifacts/content",
            ExternalReadResource::BuildGraph => "/api/v1/organizations/{organization}/projects/{project}/builds/{build}/graph",
            ExternalReadResource::BuildStatus => "/api/v1/organizations/{organization}/projects/{project}/builds/{build}",
            ExternalReadResource::JobMetadata => "/api/v1/organizations/{organization}/projects/{project}/pipelines",
            ExternalReadResource::Log => "/api/v1/organizations/{organization}/projects/{project}/builds/{build}/logs",
            ExternalReadResource::Queue => "/api/v1/organizations/{organization}/projects/{project}/builds",
            ExternalReadResource::TestResult => "/api/v1/organizations/{organization}/projects/{project}/builds/{build}/tests",
        }
    }

    /// The query parameters the endpoint takes, in name order.
    pub open spec fn query_name_list(self) -> Seq<Seq<char>> {
        match self {
            ExternalReadResource::Log => seq![
                "after_attempt_id"@,
                "after_fence"@,
                "after_sequence"@,
                "after_stream"@,
                "limit"@,
            ],
            ExternalReadResource::Queue => seq!["after_created_micros"@, "after_id"@, "limit"@, "status"@],
            ExternalReadResource::JobMetadata => seq!["after"@, "limit"@],
            ExternalReadResource::ArtifactContent => seq!["attempt_id"@, "name"@],
            _ => Seq::empty(),
        }
    }

    pub fn query_names(self) -> (r: Vec<&'static str>)
        ensures
            r@.len() == self.query_name_list().len(),
            forall|i: int| 0 <= i < r@.len() ==> (#[trigger] r@[i])@ == self.query_name_list()[i],
    {
        match self {
            ExternalReadResource::Log => vec![
                "after_attempt_id",
                "after_fence",
                "after_sequence",
                "after_stream",
                "limit",
            ],
            ExternalReadResource::Queue => vec!["after_created_micros", "after_id", "limit", "status"],
            ExternalReadResource::JobMetadata => vec!["after", "limit"],
            ExternalReadResource::ArtifactContent => vec!["attempt_id", "name"],
            _ => Vec::new(),
        }
    }
}

/// How one read resource is served after the migration.
///
/// `query` lists the endpoint's query parameters as (name, semantics)
/// pairs; a well-formed contract lists them in strictly increasing name
/// order, the order in which they are encoded and compared.
#[derive(Clone, Debug, PartialEq, Eq)]
pub struct ExternalReadEndpointContract {
    pub resource: ExternalReadResource,
    pub endpoint: String,
    pub query: Vec<(String, String)>,
    pub pagination: String,
}

/// One approved generation of an external read consumer's authority.
#[derive(Clone, Debug, PartialEq, Eq)]
pub struct ExternalReadConsumerWrite {
    pub organization_id: u128,
    pub project_id: u128,
    pub consumer_id: String,
    pub generation: i64,
    pub expected_current_generation: Option<i64>,
    pub authority: ExternalReadAuthority,
    pub source_inventory_digest: [u8; 32],
    pub source_inventory_generation: String,
    pub source_endpoint: String,
    pub source_caller: String,
    pub target_identity_id: u128,
    pub target_subject: String,
    pub target_api_base: String,
    pub target_api_version: String,
    pub endpoint_contracts: Vec<ExternalReadEndpointContract>,
    pub retention_semantics: String,
    pub url_semantics: String,
    pub rate_limit_per_minute: u32,
    pub observation_started_unix_ms: i64,
    pub observation_ended_unix_ms: i64,
    pub source_reads_observed: u64,
    pub positive_authorization_digest: [u8; 32],
    pub negative_authorization_digest: [u8; 32],
    pub equivalence_digest: [u8; 32],
    pub artifact_retrieval_digest: [u8; 32],
    pub pagination_resume_digest: [u8; 32],
    pub outage_behavior_digest: [u8; 32],
    pub rollback_from_generation: Option<i64>,
    pub rollback_evidence_digest: Option<[u8; 32]>,
    pub reviewer: String,
    pub actor_subject: String,
    pub expected_contract_digest: [u8; 32],
}

/// What an installed read consumer generation answers.
#[derive(Clone, Debug, PartialEq, Eq)]
pub struct ExternalReadConsumerReceipt {
    pub organization_id: u128,
    pub project_id: u128,
    pub consumer_id: String,
    pub generation: i64,
    pub authority: ExternalReadAuthority,
    pub binding_digest: [u8; 32],
    pub contract_digest: [u8; 32],
}

pub open spec fn invalid_text_message(name: Seq<char>) -> Seq<char> {
    "external read consumer "@ + name + " is invalid"@
}

/// The refusal `r` carries, as an invalid consumer migration with message `m`.
pub open spec fn refused_with(r: Result<(), StoreError>, rejection: Option<Seq<char>>) -> bool {
    match r {
        Ok(()) => rejection is None,
        Err(StoreError::InvalidConsumerMigration(m)) => rejection == Some(m@),
        Err(_) => false,
    }
}

pub open spec fn text_check(name: Seq<char>, value: Seq<char>, max: nat) -> Option<Seq<char>> {
    if canonical_text(value, max) {
        None
    } else {
        Some(invalid_text_message(name))
    }
}

pub fn validate_text(name: &str, value: &str, max: usize) -> (r: Result<(), StoreError>)
    ensures
        refused_with(r, text_check(name@, value@, max as nat)),
{
    let empty = chars_of(value).len() == 0;
    if empty || padded(value) || utf8_len(value) > max || contains_char(value, '\u{0}') {
        let head = concat_str("external read consumer ", name);
        return Err(StoreError::InvalidConsumerMigration(concat_str(head.as_str(), " is invalid")));
    }
    Ok(())
}

fn invalid(message: &str) -> (r: Result<(), StoreError>)
    ensures
        refused_with(r, Some(message@)),
{
    Err(StoreError::InvalidConsumerMigration(message.to_owned()))
}

/// The first free-text field of a write that is not canonical.
pub open spec fn text_rejection(input: ExternalReadConsumerWrite) -> Option<Seq<char>> {
    if !canonical_text(input.consumer_id@, 256) {
        Some(invalid_text_message("consumer id"@))
    } else if !canonical_text(input.source_inventory_generation@, 512) {
        Some(invalid_text_message("source inventory generation"@))
    } else if !canonical_text(input.source_endpoint@, 2048) {
        Some(invalid_text_message("source endpoint"@))
    } else if !canonical_text(input.source_caller@, 512) {
        Some(invalid_text_message("source caller"@))
    } else if !canonical_text(input.target_subject@, 512) {
        Some(invalid_text_message("target subject"@))
    } else if !canonical_text(input.target_api_base@, 2048) {
        Some(invalid_text_message("target API base"@))
    } else if !canonical_text(input.retention_semantics@, 2048) {
        Some(invalid_text_message("retention semantics"@))
    } else if !canonical_text(input.url_semantics@, 2048) {
        Some(invalid_text_message("URL semantics"@))
    } else if !canonical_text(input.reviewer@, 512) {
        Some(invalid_text_message("approver"@))
    } else if !canonical_text(input.actor_subject@, 512) {
        Some(invalid_text_message("actor subject"@))
    } else {
        None
    }
}

fn validate_texts(input: &ExternalReadConsumerWrite) -> (r: Result<(), StoreError>)
    ensures
        refused_with(r, text_rejection(*input)),
{
    if let Err(e) = validate_text("consumer id", input.consumer_id.as_str(), 256) {
        return Err(e);
    }
    if let Err(e) = validate_text("source inventory generation", input.source_inventory_generation.as_str(), 512) {
        return Err(e);
    }
    if let Err(e) = validate_text("source endpoint", input.source_endpoint.as_str(), 2048) {
        return Err(e);
    }
    if let Err(e) = validate_text("source caller", input.source_caller.as_str(), 512) {
        return Err(e);
    }
    if let Err(e) = validate_text("target subject", input.target_subject.as_str(), 512) {
        return Err(e);
    }
    if let Err(e) = validate_text("target API base", input.target_api_base.as_str(), 2048) {
        return Err(e);
    }
    if let Err(e) = validate_text("retention semantics", input.retention_semantics.as_str(), 2048) {
        return Err(e);
    }
    if let Err(e) = validate_text("URL semantics", input.url_semantics.as_str(), 2048) {
        return Err(e);
    }
    if let Err(e) = validate_text("approver", input.reviewer.as_str(), 512) {
        return Err(e);
    }
    if let Err(e) = validate_text("actor subject", input.actor_subject.as_str(), 512) {
        return Err(e);
    }
    Ok(())
}

/// The first query parameter, in order, whose name or semantics is not
/// canonical.
pub open spec fn query_text_rejection(q: Seq<(String, String)>) -> Option<Seq<char>>
    decreases q.len(),
{
    if q.len() == 0 {
        None
    } else {
        let earlier = query_text_rejection(q.drop_last());
        if earlier is Some {
            earlier
        } else if text_check("query name"@, q.last().0@, 128) is Some {
            text_check("query name"@, q.last().0@, 128)
        } else {
            text_check("query semantics"@, q.last().1@, 1024)
        }
    }
}

/// The parameter names of a query contract, in order.
pub open spec fn query_names_of(q: Seq<(String, String)>) -> Seq<Seq<char>> {
    q.map_values(|p: (String, String)| p.0@)
}

/// A contract's own rejection, given whether an earlier contract already
/// covered the same resource.
pub open spec fn contract_rejection(c: ExternalReadEndpointContract, repeated: bool) -> Option<Seq<char>> {
    if repeated {
        Some("external read consumer resources must be unique"@)
    } else if text_check("endpoint"@, c.endpoint@, 2048) is Some {
        text_check("endpoint"@, c.endpoint@, 2048)
    } else if text_check("pagination semantics"@, c.pagination@, 2048) is Some {
        text_check("pagination semantics"@, c.pagination@, 2048)
    } else if !starts_with(c.endpoint@, "/api/v1/"@) || c.endpoint@.contains('?') || c.endpoint@.contains('#') {
        Some("external read endpoint must be a query-free /api/v1 path"@)
    } else if c.endpoint@ != c.resource.endpoint_path() {
        Some("external read endpoint does not match its resource"@)
    } else if c.query@.len() > 32 {
        Some("external read endpoint query contract is too large"@)
    } else if query_text_rejection(c.query@) is Some {
        query_text_rejection(c.query@)
    } else if query_names_of(c.query@) != c.resource.query_name_list() {
        Some("external read query contract does not match its resource"@)
    } else {
        None
    }
}

/// Some contract before position `i` covers the same resource as `i`.
pub open spec fn repeats_earlier(cs: Seq<ExternalReadEndpointContract>, i: int) -> bool {
    exists|j: int| 0 <= j < i && (#[trigger] cs[j]).resource == cs[i].resource
}

/// The rejection of the first contract, in the order given, that has one.
pub open spec fn first_contract_rejection(cs: Seq<ExternalReadEndpointContract>) -> Option<Seq<char>>
    decreases cs.len(),
{
    if cs.len() == 0 {
        None
    } else {
        let earlier = first_contract_rejection(cs.drop_last());
        if earlier is Some {
            earlier
        } else {
            contract_rejection(cs.last(), repeats_earlier(cs, cs.len() - 1))
        }
    }
}

pub open spec fn some_evidence_missing(input: ExternalReadConsumerWrite) -> bool {
    ||| input.source_inventory_digest@ == zero_digest()
    ||| input.positive_authorization_digest@ == zero_digest()
    ||| input.negative_authorization_digest@ == zero_digest()
    ||| input.equivalence_digest@ == zero_digest()
    ||| input.artifact_retrieval_digest@ == zero_digest()
    ||| input.pagination_resume_digest@ == zero_digest()
    ||| input.outage_behavior_digest@ == zero_digest()
}

/// Why a consumer write is refused before anything is read from the store,
/// by the first rule it breaks.
pub open spec fn input_rejection(input: ExternalReadConsumerWrite) -> Option<Seq<char>> {
    if input.generation <= 0 {
        Some("external read consumer generation must be positive"@)
    } else if text_rejection(input) is Some {
        text_rejection(input)
    } else if !is_http_endpoint(input.source_endpoint@) || !is_http_endpoint(input.target_api_base@) {
        Some("source and target endpoints must be explicit HTTP(S) URLs"@)
    } else if input.target_api_version@ != "v1"@ {
        Some("external read consumer target API version must be v1"@)
    } else if input.rate_limit_per_minute == 0 || input.rate_limit_per_minute > 1_000_000 {
        Some("external read consumer rate limit is outside its bounded range"@)
    } else if input.observation_started_unix_ms <= 0 || input.observation_ended_unix_ms
        <= input.observation_started_unix_ms {
        Some("external read consumer observation window is invalid"@)
    } else if input.endpoint_contracts@.len() == 0 || input.endpoint_contracts@.len() > 8 {
        Some("external read consumer must bind one to eight read resources"@)
    } else if first_contract_rejection(input.endpoint_contracts@) is Some {
        first_contract_rejection(input.endpoint_contracts@)
    } else if some_evidence_missing(input) {
        Some("external read consumer evidence digests must be non-zero"@)
    } else if input.rollback_evidence_digest matches Some(d) && d@ == zero_digest() {
        Some("external read consumer rollback evidence digest must be non-zero"@)
    } else if (input.rollback_from_generation is Some) != (input.rollback_evidence_digest is Some) {
        Some("external read consumer rollback fields must be supplied together"@)
    } else {
        None
    }
}

fn check_query_texts(q: &Vec<(String, String)>) -> (r: Result<(), StoreError>)
    ensures
        refused_with(r, query_text_rejection(q@)),
{
    let mut i: usize = 0;
    assert(q@.take(0) =~= Seq::<(String, String)>::empty());
    while i < q.len()
        invariant
            i <= q@.len(),
            query_text_rejection(q@.take(i as int)) is None,
        decreases q@.len() - i,
    {
        proof {
            assert(q@.take(i + 1).drop_last() =~= q@.take(i as int));
            assert(q@.take(i + 1).last() == q@[i as int]);
        }
        let pair = &q[i];
        if let Err(e) = validate_text("query name", pair.0.as_str(), 128) {
            proof {
                lemma_query_rejection_prefix(q@, i + 1);
            }
            return Err(e);
        }
        if let Err(e) = validate_text("query semantics", pair.1.as_str(), 1024) {
            proof {
                lemma_query_rejection_prefix(q@, i + 1);
            }
            return Err(e);
        }
        i = i + 1;
    }
    assert(q@.take(q@.len() as int) =~= q@);
    Ok(())
}

proof fn lemma_query_rejection_prefix(q: Seq<(String, String)>, n: int)
    requires
        0 <= n <= q.len(),
        query_text_rejection(q.take(n)) is Some,
    ensures
        query_text_rejection(q) == query_text_rejection(q.take(n)),
    decreases q.len() - n,
{
    if n < q.len() {
        assert(q.take(n + 1).drop_last() =~= q.take(n));
        lemma_query_rejection_prefix(q, n + 1);
    } else {
        assert(q.take(n) =~= q);
    }
}

fn query_names_match(q: &Vec<(String, String)>, resource: ExternalReadResource) -> (r: bool)
    ensures
        r == (query_names_of(q@) == resource.query_name_list()),
{
    let expected = resource.query_names();
    if q.len() != expected.len() {
        return false;
    }
    let mut i: usize = 0;
    while i < q.len()
        invariant
            i <= q@.len(),
            q@.len() == expected@.len(),
            expected@.len() == resource.query_name_list().len(),
            forall|j: int| 0 <= j < expected@.len() ==> (#[trigger] expected@[j])@ == resource.query_name_list()[j],
            forall|j: int| 0 <= j < i ==> (#[trigger] q@[j]).0@ == resource.query_name_list()[j],
        decreases q@.len() - i,
    {
        if !str_eq(q[i].0.as_str(), expected[i]) {
            assert(query_names_of(q@)[i as int] != resource.query_name_list()[i as int]);
            return false;
        }
        i = i + 1;
    }
    assert(query_names_of(q@) =~= resource.query_name_list());
    true
}

fn check_contract(c: &ExternalReadEndpointContract, repeated: bool) -> (r: Result<(), StoreError>)
    ensures
        refused_with(r, contract_rejection(*c, repeated)),
{
    if repeated {
        return invalid("external read consumer resources must be unique");
    }
    if let Err(e) = validate_text("endpoint", c.endpoint.as_str(), 2048) {
        return Err(e);
    }
    if let Err(e) = validate_text("pagination semantics", c.pagination.as_str(), 2048) {
        return Err(e);
    }
    if !str_starts_with(c.endpoint.as_str(), "/api/v1/") || contains_char(c.endpoint.as_str(), '?')
        || contains_char(c.endpoint.as_str(), '#') {
        return invalid("external read endpoint must be a query-free /api/v1 path");
    }
    if !str_eq(c.endpoint.as_str(), c.resource.endpoint()) {
        return invalid("external read endpoint does not match its resource");
    }
    if c.query.len() > 32 {
        return invalid("external read endpoint query contract is too large");
    }
    if let Err(e) = check_query_texts(&c.query) {
        return Err(e);
    }
    if !query_names_match(&c.query, c.resource) {
        return invalid("external read query contract does not match its resource");
    }
    Ok(())
}

proof fn lemma_first_rejection_prefix(cs: Seq<ExternalReadEndpointContract>, n: int)
    requires
        0 <= n <= cs.len(),
        first_contract_rejection(cs.take(n)) is Some,
    ensures
        first_contract_rejection(cs) == first_contract_rejection(cs.take(n)),
    decreases cs.len() - n,
{
    if n < cs.len() {
        assert(cs.take(n + 1).drop_last() =~= cs.take(n));
        lemma_first_rejection_prefix(cs, n + 1);
    } else {
        assert(cs.take(n) =~= cs);
    }
}

proof fn lemma_repeats_in_prefix(cs: Seq<ExternalReadEndpointContract>, i: int)
    requires
        0 <= i < cs.len(),
    ensures
        repeats_earlier(cs.take(i + 1), i) == repeats_earlier(cs, i),
{
    let t = cs.take(i + 1);
    if repeats_earlier(cs, i) {
        let j = choose|j: int| 0 <= j < i && (#[trigger] cs[j]).resource == cs[i].resource;
        assert(t[j] == cs[j]);
    }
    if repeats_earlier(t, i) {
        let j = choose|j: int| 0 <= j < i && (#[trigger] t[j]).resource == t[i].resource;
        assert(t[j] == cs[j]);
    }
}

fn repeats(cs: &Vec<ExternalReadEndpointContract>, i: usize) -> (r: bool)
    requires
        i < cs@.len(),
    ensures
        r == repeats_earlier(cs@, i as int),
{
    let mut j: usize = 0;
    while j < i
        invariant
            i < cs@.len(),
            j <= i,
            forall|k: int| 0 <= k < j ==> (#[trigger] cs@[k]).resource != cs@[i as int].resource,
        decreases i - j,
    {
        if cs[j].resource == cs[i].resource {
            return true;
        }
        j = j + 1;
    }
    false
}

fn check_contracts(cs: &Vec<ExternalReadEndpointContract>) -> (r: Result<(), StoreError>)
    ensures
        refused_with(r, first_contract_rejection(cs@)),
{
    let mut i: usize = 0;
    assert(cs@.take(0) =~= Seq::<ExternalReadEndpointContract>::empty());
    while i < cs.len()
        invariant
            i <= cs@.len(),
            first_contract_rejection(cs@.take(i as int)) is None,
        decreases cs@.len() - i,
    {
        proof {
            assert(cs@.take(i + 1).drop_last() =~= cs@.take(i as int));
            assert(cs@.take(i + 1).last() == cs@[i as int]);
            lemma_repeats_in_prefix(cs@, i as int);
        }
        let repeated = repeats(cs, i);
        if let Err(e) = check_contract(&cs[i], repeated) {
            proof {
                lemma_first_rejection_prefix(cs@, i + 1);
            }
            return Err(e);
        }
        i = i + 1;
    }
    assert(cs@.take(cs@.len() as int) =~= cs@);
    Ok(())
}

/// Checks a consumer write against every rule that needs nothing from the
/// store, in a fixed order, and reports the first one it breaks.
pub fn validate_input(input: &ExternalReadConsumerWrite) -> (r: Result<(), StoreError>)
    ensures
        refused_with(r, input_rejection(*input)),
{
    if input.generation <= 0 {
        return invalid("external read consumer generation must be positive");
    }
    if let Err(e) = validate_texts(input) {
        return Err(e);
    }
    if !http_endpoint(input.source_endpoint.as_str()) || !http_endpoint(input.target_api_base.as_str()) {
        return invalid("source and target endpoints must be explicit HTTP(S) URLs");
    }
    if !str_eq(input.target_api_version.as_str(), "v1") {
        return invalid("external read consumer target API version must be v1");
    }
    if input.rate_limit_per_minute == 0 || input.rate_limit_per_minute > 1_000_000 {
        return invalid("external read consumer rate limit is outside its bounded range");
    }
    if input.observation_started_unix_ms <= 0 || input.observation_ended_unix_ms
        <= input.observation_started_unix_ms {
        return invalid("external read consumer observation window is invalid");
    }
    if input.endpoint_contracts.len() == 0 || input.endpoint_contracts.len() > 8 {
        return invalid("external read consumer must bind one to eight read resources");
    }
    if let Err(e) = check_contracts(&input.endpoint_contracts) {
        return Err(e);
    }
    if is_zero_digest(&input.source_inventory_digest) || is_zero_digest(&input.positive_authorization_digest)
        || is_zero_digest(&input.negative_authorization_digest) || is_zero_digest(&input.equivalence_digest)
        || is_zero_digest(&input.artifact_retrieval_digest) || is_zero_digest(&input.pagination_resume_digest)
        || is_zero_digest(&input.outage_behavior_digest) {
        return invalid("external read consumer evidence digests must be non-zero");
    }
    if let Some(d) = &input.rollback_evidence_digest {
        if is_zero_digest(d) {
            return invalid("external read consumer rollback evidence digest must be non-zero");
        }
    }
    if input.rollback_from_generation.is_some() != input.rollback_evidence_digest.is_some() {
        return invalid("external read consumer rollback fields must be supplied together");
    }
    Ok(())
}

/// No two contracts cover the same resource.
pub open spec fn resources_distinct(cs: Seq<ExternalReadEndpointContract>) -> bool {
    forall|i: int, j: int| 0 <= i < j < cs.len() ==> (#[trigger] cs[i]).resource != (#[trigger] cs[j]).resource
}

proof fn lemma_accepted_contracts_distinct(cs: Seq<ExternalReadEndpointContract>)
    requires
        first_contract_rejection(cs) is None,
    ensures
        resources_distinct(cs),
    decreases cs.len(),
{
    if cs.len() > 0 {
        let init = cs.drop_last();
        lemma_accepted_contracts_distinct(init);
        assert(!repeats_earlier(cs, cs.len() - 1));
        assert forall|i: int, j: int| 0 <= i < j < cs.len() implies (#[trigger] cs[i]).resource != (
        #[trigger] cs[j]).resource by {
            if j < cs.len() - 1 {
                assert(cs[i] == init[i] && cs[j] == init[j]);
            } else if cs[i].resource == cs[j].resource {
                assert(repeats_earlier(cs, cs.len() - 1));
            }
        }
    }
}

pub open spec fn resource_present(cs: Seq<ExternalReadEndpointContract>, r: ExternalReadResource) -> bool {
    exists|i: int| 0 <= i < cs.len() && (#[trigger] cs[i]).resource == r
}

/// The contract that covers `r`.
pub open spec fn contract_for(cs: Seq<ExternalReadEndpointContract>, r: ExternalReadResource) -> ExternalReadEndpointContract {
    cs[choose|i: int| 0 <= i < cs.len() && (#[trigger] cs[i]).resource == r]
}

proof fn lemma_contract_for(cs: Seq<ExternalReadEndpointContract>, r: ExternalReadResource, i: int)
    requires
        resources_distinct(cs),
        0 <= i < cs.len(),
        cs[i].resource == r,
    ensures
        contract_for(cs, r) == cs[i],
{
    let j = choose|j: int| 0 <= j < cs.len() && (#[trigger] cs[j]).resource == r;
    assert(0 <= j < cs.len() && cs[j].resource == r);
    if i < j {
        assert(cs[i].resource != cs[j].resource);
    } else if j < i {
        assert(cs[j].resource != cs[i].resource);
    }
}

/// Each query parameter's name and semantics, framed, in order.
pub open spec fn query_bytes(q: Seq<(String, String)>) -> Seq<u8>
    decreases q.len(),
{
    if q.len() == 0 {
        Seq::empty()
    } else {
        query_bytes(q.drop_last()) + framed(encode_utf8(q.last().0@)) + framed(encode_utf8(q.last().1@))
    }
}

/// The bytes one endpoint contract contributes to the binding digest.
pub open spec fn contract_bytes(c: ExternalReadEndpointContract) -> Seq<u8> {
    framed(encode_utf8(c.resource.name())) + framed(encode_utf8(c.endpoint@)) + query_bytes(c.query@) + framed(
        encode_utf8(c.pagination@),
    )
}

/// The covered resources' contracts in canonical resource order.
pub open spec fn contract_section(cs: Seq<ExternalReadEndpointContract>, k: int) -> Seq<u8>
    decreases k,
{
    if k <= 0 {
        Seq::empty()
    } else {
        contract_section(cs, k - 1) + if resource_present(cs, ExternalReadResource::at_rank(k - 1)) {
            contract_bytes(contract_for(cs, ExternalReadResource::at_rank(k - 1)))
        } else {
            Seq::empty()
        }
    }
}

/// The bytes hashed into the binding digest: who the consumer is, where it
/// reads, and how each resource is served.
pub open spec fn binding_preimage(input: ExternalReadConsumerWrite) -> Seq<u8> {
    framed(encode_utf8("mcloving-external-read-consumer-binding-v1"@)) + framed(id_bytes(input.organization_id))
        + framed(id_bytes(input.project_id)) + framed(encode_utf8(input.consumer_id@)) + framed(
        input.source_inventory_digest@,
    ) + framed(encode_utf8(input.source_inventory_generation@)) + framed(encode_utf8(input.source_endpoint@))
        + framed(encode_utf8(input.source_caller@)) + framed(id_bytes(input.target_identity_id)) + framed(
        encode_utf8(input.target_subject@),
    ) + framed(encode_utf8(input.target_api_base@)) + framed(encode_utf8(input.target_api_version@))
        + contract_section(input.endpoint_contracts@, 8) + framed(encode_utf8(input.retention_semantics@)) + framed(
        encode_utf8(input.url_semantics@),
    ) + framed(u32_be(input.rate_limit_per_minute))
}

pub open spec fn binding_digest(input: ExternalReadConsumerWrite) -> Seq<u8> {
    sha256_spec(binding_preimage(input))
}

/// The bytes hashed into the contract digest of one generation.
pub open spec fn contract_preimage(input: ExternalReadConsumerWrite) -> Seq<u8> {
    framed(encode_utf8("mcloving-external-read-consumer-v1"@)) + framed(binding_digest(input)) + framed(
        i64_be(input.generation),
    ) + framed(encode_utf8(input.authority.name())) + framed(i64_be(input.observation_started_unix_ms)) + framed(
        i64_be(input.observation_ended_unix_ms),
    ) + framed(u64_be(input.source_reads_observed)) + framed(input.positive_authorization_digest@) + framed(
        input.negative_authorization_digest@,
    ) + framed(input.equivalence_digest@) + framed(input.artifact_retrieval_digest@) + framed(
        input.pagination_resume_digest@,
    ) + framed(input.outage_behavior_digest@) + framed(
        i64_be(
            match input.rollback_from_generation {
                Some(g) => g,
                None => 0,
            },
        ),
    ) + framed(opt_digest_bytes(input.rollback_evidence_digest)) + framed(encode_utf8(input.reviewer@))
}

pub open spec fn contract_digest(input: ExternalReadConsumerWrite) -> Seq<u8> {
    sha256_spec(contract_preimage(input))
}

fn find_resource(cs: &Vec<ExternalReadEndpointContract>, r: ExternalReadResource) -> (found: Option<usize>)
    requires
        resources_distinct(cs@),
    ensures
        found is None <==> !resource_present(cs@, r),
        found matches Some(i) ==> i < cs@.len() && cs@[i as int] == contract_for(cs@, r),
{
    let mut i: usize = 0;
    while i < cs.len()
        invariant
            i <= cs@.len(),
            resources_distinct(cs@),
            forall|j: int| 0 <= j < i ==> (#[trigger] cs@[j]).resource != r,
        decreases cs@.len() - i,
    {
        if cs[i].resource == r {
            proof {
                lemma_contract_for(cs@, r, i as int);
            }
            return Some(i);
        }
        i = i + 1;
    }
    None
}

fn push_query(msg: &mut Vec<u8>, q: &Vec<(String, String)>)
    ensures
        final(msg)@ == old(msg)@ + query_bytes(q@),
{
    let mut i: usize = 0;
    assert(q@.take(0) =~= Seq::<(String, String)>::empty());
    while i < q.len()
        invariant
            i <= q@.len(),
            msg@ == old(msg)@ + query_bytes(q@.take(i as int)),
        decreases q@.len() - i,
    {
        push_framed_str(msg, q[i].0.as_str());
        push_framed_str(msg, q[i].1.as_str());
        proof {
            assert(q@.take(i + 1).drop_last() =~= q@.take(i as int));
            assert(q@.take(i + 1).last() == q@[i as int]);
        }
        i = i + 1;
    }
    assert(q@.take(q@.len() as int) =~= q@);
}

fn push_contract(msg: &mut Vec<u8>, c: &ExternalReadEndpointContract)
    ensures
        final(msg)@ == old(msg)@ + contract_bytes(*c),
{
    push_framed_str(msg, c.resource.as_str());
    push_framed_str(msg, c.endpoint.as_str());
    push_query(msg, &c.query);
    push_framed_str(msg, c.pagination.as_str());
    assert(final(msg)@ =~= old(msg)@ + contract_bytes(*c));
}

fn push_contracts(msg: &mut Vec<u8>, cs: &Vec<ExternalReadEndpointContract>)
    requires
        resources_distinct(cs@),
    ensures
        final(msg)@ == old(msg)@ + contract_section(cs@, 8),
{
    let all = ExternalReadResource::all();
    let mut k: usize = 0;
    while k < 8
        invariant
            k <= 8,
            resources_distinct(cs@),
            all@.len() == 8,
            forall|j: int| 0 <= j < 8 ==> #[trigger] all@[j] == ExternalReadResource::at_rank(j),
            msg@ == old(msg)@ + contract_section(cs@, k as int),
        decreases 8 - k,
    {
        let r = all[k];
        match find_resource(cs, r) {
            Some(i) => push_contract(msg, &cs[i]),
            None => {
                assert(msg@ =~= msg@ + Seq::<u8>::empty());
            },
        }
        proof {
            assert(ExternalReadResource::at_rank((k + 1) - 1) == r);
        }
        k = k + 1;
    }
}

/// Digest of who a consumer is, where it reads and how each resource is
/// served; it does not change when authority moves between the two systems.
#[verifier::rlimit(40)]
pub fn compute_external_read_consumer_binding_digest(input: &ExternalReadConsumerWrite) -> (r: Result<[u8; 32], StoreError>)
    ensures
        r is Ok <==> input_rejection(*input) is None,
        r matches Ok(d) ==> d@ == binding_digest(*input),
        r matches Err(e) ==> e matches StoreError::InvalidConsumerMigration(m) && input_rejection(*input) == Some(
            m@,
        ),
{
    if let Err(e) = validate_input(input) {
        return Err(e);
    }
    proof {
        lemma_accepted_contracts_distinct(input.endpoint_contracts@);
    }
    let mut msg: Vec<u8> = Vec::new();
    push_framed_str(&mut msg, "mcloving-external-read-consumer-binding-v1");
    push_framed_id(&mut msg, input.organization_id);
    push_framed_id(&mut msg, input.project_id);
    push_framed_str(&mut msg, input.consumer_id.as_str());
    push_framed(&mut msg, &input.source_inventory_digest);
    push_framed_str(&mut msg, input.source_inventory_generation.as_str());
    push_framed_str(&mut msg, input.source_endpoint.as_str());
    push_framed_str(&mut msg, input.source_caller.as_str());
    push_framed_id(&mut msg, input.target_identity_id);
    push_framed_str(&mut msg, input.target_subject.as_str());
    push_framed_str(&mut msg, input.target_api_base.as_str());
    push_framed_str(&mut msg, input.target_api_version.as_str());
    push_contracts(&mut msg, &input.endpoint_contracts);
    push_framed_str(&mut msg, input.retention_semantics.as_str());
    push_framed_str(&mut msg, input.url_semantics.as_str());
    push_framed_u32(&mut msg, input.rate_limit_per_minute);
    assert(msg@ =~= binding_preimage(*input));
    Ok(sha256(msg.as_slice()))
}

/// Digest of one approved generation: its binding, authority and the
/// migration evidence.
#[verifier::rlimit(40)]
pub fn compute_external_read_consumer_digest(input: &ExternalReadConsumerWrite) -> (r: Result<[u8; 32], StoreError>)
    ensures
        r is Ok <==> input_rejection(*input) is None,
        r matches Ok(d) ==> d@ == contract_digest(*input),
        r matches Err(e) ==> e matches StoreError::InvalidConsumerMigration(m) && input_rejection(*input) == Some(
            m@,
        ),
{
    if let Err(e) = validate_input(input) {
        return Err(e);
    }
    let binding = match compute_external_read_consumer_binding_digest(input) {
        Ok(d) => d,
        Err(e) => return Err(e),
    };
    let mut msg: Vec<u8> = Vec::new();
    push_framed_str(&mut msg, "mcloving-external-read-consumer-v1");
    push_framed(&mut msg, &binding);
    push_framed_i64(&mut msg, input.generation);
    push_framed_str(&mut msg, input.authority.as_str());
    push_framed_i64(&mut msg, input.observation_started_unix_ms);
    push_framed_i64(&mut msg, input.observation_ended_unix_ms);
    push_framed_u64(&mut msg, input.source_reads_observed);
    push_framed(&mut msg, &input.positive_authorization_digest);
    push_framed(&mut msg, &input.negative_authorization_digest);
    push_framed(&mut msg, &input.equivalence_digest);
    push_framed(&mut msg, &input.artifact_retrieval_digest);
    push_framed(&mut msg, &input.pagination_resume_digest);
    push_framed(&mut msg, &input.outage_behavior_digest);
    let rollback_from: i64 = match input.rollback_from_generation {
        Some(g) => g,
        None => 0,
    };
    push_framed_i64(&mut msg, rollback_from);
    push_framed_opt_digest(&mut msg, &input.rollback_evidence_digest);
    push_framed_str(&mut msg, input.reviewer.as_str());
    assert(msg@ =~= contract_preimage(*input));
    Ok(sha256(msg.as_slice()))
}

/// Why an authority transition from the current stored generation (its
/// number and authority name) to the written one is refused, if it is.
pub open spec fn transition_rejection(input: ExternalReadConsumerWrite, current: Option<(i64, Seq<char>)>) -> Option<Seq<char>> {
    match current {
        None => match input.authority {
            ExternalReadAuthority::JenkinsSource => if input.rollback_from_generation is Some
                || input.rollback_evidence_digest is Some {
                Some("initial Jenkins authority cannot be a rollback"@)
            } else {
                None
            },
            ExternalReadAuthority::McLovingTarget => Some(
                "McLoving authority requires a retained Jenkins source generation"@,
            ),
        },
        Some((generation, authority)) => if input.authority == ExternalReadAuthority::McLovingTarget && authority
            == ExternalReadAuthority::JenkinsSource.name() {
            if input.source_reads_observed != 0 {
                Some("McLoving authority requires zero residual Jenkins reads"@)
            } else if input.rollback_from_generation is Some || input.rollback_evidence_digest is Some {
                Some("McLoving cutover cannot carry rollback fields"@)
            } else {
                None
            }
        } else if input.authority == ExternalReadAuthority::JenkinsSource && authority
            == ExternalReadAuthority::McLovingTarget.name() {
            if input.rollback_from_generation != Some(generation) || input.rollback_evidence_digest is None {
                Some("Jenkins restoration must bind the immediately preceding target generation"@)
            } else {
                None
            }
        } else {
            Some("external read consumer authority must alternate"@)
        },
    }
}

/// The current generation as the transition rule sees it.
pub open spec fn current_view(current: Option<(i64, String, bool)>) -> Option<(i64, Seq<char>)> {
    match current {
        Some(c) => Some((c.0, c.1@)),
        None => None,
    }
}

/// Checks that the written authority alternates with the stored one:
/// Jenkins first, then McLoving after an observation window with no
/// residual Jenkins reads, then Jenkins again only as a rollback of the
/// generation just before.
pub fn validate_transition(input: &ExternalReadConsumerWrite, current: &Option<(i64, String, bool)>) -> (r: Result<(), StoreError>)
    ensures
        refused_with(r, transition_rejection(*input, current_view(*current))),
{
    match current {
        None => match input.authority {
            ExternalReadAuthority::JenkinsSource => {
                if input.rollback_from_generation.is_some() || input.rollback_evidence_digest.is_some() {
                    return invalid("initial Jenkins authority cannot be a rollback");
                }
                Ok(())
            },
            ExternalReadAuthority::McLovingTarget => {
                invalid("McLoving authority requires a retained Jenkins source generation")
            },
        },
        Some((generation, authority, _)) => {
            if input.authority == ExternalReadAuthority::McLovingTarget && str_eq(
                authority.as_str(),
                ExternalReadAuthority::JenkinsSource.as_str(),
            ) {
                if input.source_reads_observed != 0 {
                    return invalid("McLoving authority requires zero residual Jenkins reads");
                }
                if input.rollback_from_generation.is_some() || input.rollback_evidence_digest.is_some() {
                    return invalid("McLoving cutover cannot carry rollback fields");
                }
                Ok(())
            } else if input.authority == ExternalReadAuthority::JenkinsSource && str_eq(
                authority.as_str(),
                ExternalReadAuthority::McLovingTarget.as_str(),
            ) {
                let binds_previous = match input.rollback_from_generation {
                    Some(g) => g == *generation,
                    None => false,
                };
                if !binds_previous || input.rollback_evidence_digest.is_none() {
                    return invalid("Jenkins restoration must bind the immediately preceding target generation");
                }
                Ok(())
            } else {
                invalid("external read consumer authority must alternate")
            }
        },
    }
}

/// The stored generation moved since the writer read it.
pub open spec fn install_conflict(input: ExternalReadConsumerWrite, current: Option<(i64, String, bool)>) -> bool {
    match current {
        Some(c) => input.expected_current_generation != Some(c.0),
        None => input.expected_current_generation is Some,
    }
}

/// Why a write is refused against the stored current generation (number,
/// authority name, and whether its binding digest equals the written one).
pub open spec fn install_rejection(input: ExternalReadConsumerWrite, current: Option<(i64, String, bool)>) -> Option<Seq<char>> {
    match current {
        Some(c) => if !c.2 {
            Some("external read consumer binding changed across an authority transition"@)
        } else if c.0 == i64::MAX {
            Some("external read consumer generation overflow"@)
        } else if input.generation != c.0 + 1 {
            Some("external read consumer generation must advance by exactly one"@)
        } else {
            transition_rejection(input, current_view(current))
        },
        None => if input.generation != 1 {
            Some("external read consumer generation must advance by exactly one"@)
        } else {
            transition_rejection(input, current_view(current))
        },
    }
}

/// Decides whether a checked write may become the next generation, given
/// what the store holds for the consumer now.
pub fn plan_external_read_install(input: &ExternalReadConsumerWrite, current: &Option<(i64, String, bool)>) -> (r: Result<(), StoreError>)
    ensures
        install_conflict(*input, *current) ==> (r matches Err(e) && e is ConsumerMigrationConflict),
        !install_conflict(*input, *current) ==> refused_with(r, install_rejection(*input, *current)),
{
    let current_generation = match current {
        Some(c) => Some(c.0),
        None => None,
    };
    if current_generation != input.expected_current_generation {
        return Err(
            StoreError::ConsumerMigrationConflict("external read consumer current generation changed".to_owned()),
        );
    }
    let required: i64 = match current {
        Some(c) => {
            if !c.2 {
                return invalid("external read consumer binding changed across an authority transition");
            }
            match c.0.checked_add(1) {
                Some(g) => g,
                None => return invalid("external read consumer generation overflow"),
            }
        },
        None => 1,
    };
    if input.generation != required {
        return invalid("external read consumer generation must advance by exactly one");
    }
    validate_transition(input, current)
}

/// The checks made on a write before the store is touched; on success the
/// binding and contract digests that the write is stored under.
pub fn check_external_read_consumer_write(input: &ExternalReadConsumerWrite) -> (r: Result<([u8; 32], [u8; 32]), StoreError>)
    ensures
        r matches Ok(d) ==> input_rejection(*input) is None && d.0@ == binding_digest(*input) && d.1@
            == contract_digest(*input) && input.expected_contract_digest@ == contract_digest(*input)
            && input.source_reads_observed <= i64::MAX,
        r is Err <==> (input_rejection(*input) is Some || input.expected_contract_digest@ != contract_digest(*input)
            || input.source_reads_observed > i64::MAX),
        r matches Err(e) ==> e matches StoreError::InvalidConsumerMigration(m) && (if input_rejection(*input) is Some {
            input_rejection(*input) == Some(m@)
        } else if input.expected_contract_digest@ != contract_digest(*input) {
            m@ == "external read consumer digest does not match canonical content"@
        } else {
            m@ == "source read count overflow"@
        }),
{
    let binding = match compute_external_read_consumer_binding_digest(input) {
        Ok(d) => d,
        Err(e) => return Err(e),
    };
    let contract = match compute_external_read_consumer_digest(input) {
        Ok(d) => d,
        Err(e) => return Err(e),
    };
    if !digest_eq(&contract, &input.expected_contract_digest) {
        return Err(
            StoreError::InvalidConsumerMigration(
                "external read consumer digest does not match canonical content".to_owned(),
            ),
        );
    }
    if input.source_reads_observed > 0x7fff_ffff_ffff_ffffu64 {
        return Err(StoreError::InvalidConsumerMigration("source read count overflow".to_owned()));
    }
    Ok((binding, contract))
}

pub open spec fn action_required(cs: Seq<ExternalReadEndpointContract>, a: Action) -> bool {
    exists|i: int| 0 <= i < cs.len() && (#[trigger] cs[i]).resource.action() == a
}

/// The actions a read resource can require, in action order.
pub open spec fn read_actions() -> Seq<Action> {
    seq![Action::ProjectView, Action::ArtifactRead, Action::TestRead, Action::LogRead]
}

fn requires_action(cs: &Vec<ExternalReadEndpointContract>, a: Action) -> (r: bool)
    ensures
        r == action_required(cs@, a),
{
    let mut i: usize = 0;
    while i < cs.len()
        invariant
            i <= cs@.len(),
            forall|j: int| 0 <= j < i ==> (#[trigger] cs@[j]).resource.action() != a,
        decreases cs@.len() - i,
    {
        if cs[i].resource.required_action() == a {
            return true;
        }
        i = i + 1;
    }
    false
}

/// The distinct actions the McLoving target identity must be authorized
/// for, one per covered resource, in action order.
pub fn required_read_actions(input: &ExternalReadConsumerWrite) -> (r: Vec<Action>)
    ensures
        r@ == read_actions().filter(|a: Action| action_required(input.endpoint_contracts@, a)),
{
    let candidates = vec![Action::ProjectView, Action::ArtifactRead, Action::TestRead, Action::LogRead];
    let ghost pred = |a: Action| action_required(input.endpoint_contracts@, a);
    let mut r: Vec<Action> = Vec::new();
    let mut k: usize = 0;
    assert(candidates@ =~= read_actions());
    while k < candidates.len()
        invariant
            k <= candidates@.len(),
            candidates@ == read_actions(),
            pred == (|a: Action| action_required(input.endpoint_contracts@, a)),
            r@ == candidates@.take(k as int).filter(pred),
        decreases candidates@.len() - k,
    {
        let a = candidates[k];
        proof {
            assert(candidates@.take(k + 1).drop_last() =~= candidates@.take(k as int));
            reveal(Seq::filter);
            assert(candidates@.take(k + 1).last() == a);
        }
        if requires_action(&input.endpoint_contracts, a) {
            r.push(a);
        }
        k = k + 1;
    }
    assert(candidates@.take(candidates@.len() as int) =~= candidates@);
    r
}

/// Name of the audit action recorded for an installed generation.
pub fn read_audit_action(authority: ExternalReadAuthority, generation: i64) -> (s: &'static str)
    ensures
        s@ == (match authority {
            ExternalReadAuthority::JenkinsSource => if generation == 1 {
                "external_read_consumer.registered"@
            } else {
                "external_read_consumer.rolled_back"@
            },
            ExternalReadAuthority::McLovingTarget => "external_read_consumer.cut_over"@,
        }),
{
    match authority {
        ExternalReadAuthority::JenkinsSource => if generation == 1 {
            "external_read_consumer.registered"
        } else {
            "external_read_consumer.rolled_back"
        },
        ExternalReadAuthority::McLovingTarget => "external_read_consumer.cut_over",
    }
}

proof fn lemma_authority_names_differ()
    ensures
        ExternalReadAuthority::JenkinsSource.name() != ExternalReadAuthority::McLovingTarget.name(),
{
    reveal_strlit("jenkins_source");
    reveal_strlit("mcloving_target");
    assert("jenkins_source"@.len() == 14);
    assert("mcloving_target"@.len() == 15);
}

/// Read authority alternates: the first generation is Jenkins, and every
/// accepted generation after it names the other system than the current one.
pub proof fn law_read_authority_alternates(input: ExternalReadConsumerWrite, current: Option<(i64, Seq<char>)>)
    requires
        transition_rejection(input, current) is None,
    ensures
        current is None ==> input.authority == ExternalReadAuthority::JenkinsSource,
        current matches Some(c) ==> c.1 != input.authority.name() && (c.1 == ExternalReadAuthority::JenkinsSource.name()
            || c.1 == ExternalReadAuthority::McLovingTarget.name()),
{
    lemma_authority_names_differ();
}

/// Cutting over to McLoving needs an observation window in which Jenkins
/// served no residual reads, and carries no rollback fields.
pub proof fn law_read_cutover_requires_zero_residual_reads(input: ExternalReadConsumerWrite, generation: i64, authority: Seq<char>)
    requires
        transition_rejection(input, Some((generation, authority))) is None,
        input.authority == ExternalReadAuthority::McLovingTarget,
    ensures
        input.source_reads_observed == 0,
        input.rollback_from_generation is None && input.rollback_evidence_digest is None,
{
    lemma_authority_names_differ();
}

/// Returning authority to Jenkins is a rollback of exactly the generation
/// before it, with its own evidence.
pub proof fn law_read_rollback_binds_previous_generation(input: ExternalReadConsumerWrite, generation: i64, authority: Seq<char>)
    requires
        transition_rejection(input, Some((generation, authority))) is None,
        input.authority == ExternalReadAuthority::JenkinsSource,
    ensures
        input.rollback_from_generation == Some(generation),
        input.rollback_evidence_digest is Some,
{
}

/// An accepted write is always the generation right after the stored one.
pub proof fn law_read_generations_advance_by_one(input: ExternalReadConsumerWrite, current: Option<(i64, String, bool)>)
    requires
        !install_conflict(input, current),
        install_rejection(input, current) is None,
    ensures
        current matches Some(c) ==> input.generation == c.0 + 1,
        current is None ==> input.generation == 1,
{
}

/// The order in which endpoint contracts are listed does not matter: two
/// accepted lists with the same contracts give one binding digest.
pub proof fn law_read_binding_ignores_contract_order(a: ExternalReadConsumerWrite, b: ExternalReadConsumerWrite)
    requires
        input_rejection(a) is None,
        input_rejection(b) is None,
        a.endpoint_contracts@.to_multiset() == b.endpoint_contracts@.to_multiset(),
        a.organization_id == b.organization_id,
        a.project_id == b.project_id,
        a.consumer_id@ == b.consumer_id@,
        a.source_inventory_digest@ == b.source_inventory_digest@,
        a.source_inventory_generation@ == b.source_inventory_generation@,
        a.source_endpoint@ == b.source_endpoint@,
        a.source_caller@ == b.source_caller@,
        a.target_identity_id == b.target_identity_id,
        a.target_subject@ == b.target_subject@,
        a.target_api_base@ == b.target_api_base@,
        a.target_api_version@ == b.target_api_version@,
        a.retention_semantics@ == b.retention_semantics@,
        a.url_semantics@ == b.url_semantics@,
        a.rate_limit_per_minute == b.rate_limit_per_minute,
    ensures
        binding_digest(a) == binding_digest(b),
{
    let xa = a.endpoint_contracts@;
    let xb = b.endpoint_contracts@;
    lemma_accepted_contracts_distinct(xa);
    lemma_accepted_contracts_distinct(xb);
    assert forall|r: ExternalReadResource| #[trigger] resource_present(xa, r) == resource_present(xb, r)
        && (resource_present(xa, r) ==> contract_for(xa, r) == contract_for(xb, r)) by {
        if resource_present(xb, r) {
            let j = choose|j: int| 0 <= j < xb.len() && (#[trigger] xb[j]).resource == r;
            let c = xb[j];
            assert(xb.contains(c));
            vstd::seq_lib::to_multiset_contains(xb, c);
            vstd::seq_lib::to_multiset_contains(xa, c);
            let i = choose|i: int| 0 <= i < xa.len() && xa[i] == c;
            lemma_contract_for(xa, r, i);
            lemma_contract_for(xb, r, j);
        }
        if resource_present(xa, r) {
            let i = choose|i: int| 0 <= i < xa.len() && (#[trigger] xa[i]).resource == r;
            let c = xa[i];
            assert(xa.contains(c));
            vstd::seq_lib::to_multiset_contains(xa, c);
            vstd::seq_lib::to_multiset_contains(xb, c);
            let j = choose|j: int| 0 <= j < xb.len() && xb[j] == c;
            lemma_contract_for(xa, r, i);
            lemma_contract_for(xb, r, j);
        }
    }
    assert forall|k: int| 0 <= k <= 8 implies #[trigger] contract_section(xa, k) == contract_section(xb, k) by {
        lemma_contract_section_eq(xa, xb, k);
    }
    assert(binding_preimage(a) =~= binding_preimage(b));
}

proof fn lemma_contract_section_eq(xa: Seq<ExternalReadEndpointContract>, xb: Seq<ExternalReadEndpointContract>, k: int)
    requires
        forall|r: ExternalReadResource| #[trigger] resource_present(xa, r) == resource_present(xb, r) && (
        resource_present(xa, r) ==> contract_for(xa, r) == contract_for(xb, r)),
    ensures
        contract_section(xa, k) == contract_section(xb, k),
    decreases k,
{
    if k > 0 {
        lemma_contract_section_eq(xa, xb, k - 1);
        let r = ExternalReadResource::at_rank(k - 1);
        assert(resource_present(xa, r) == resource_present(xb, r));
    }
}

/// Why the stored target identity, by its lifecycle state where one was
/// found under the written id and subject, cannot take the write.
pub open spec fn target_identity_rejection(input: ExternalReadConsumerWrite, lifecycle: Option<Seq<char>>) -> Option<Seq<char>> {
    match lifecycle {
        None => Some("external read consumer target identity is absent or substituted"@),
        Some(state) => if input.authority is McLovingTarget && state != "active"@ {
            Some("external read consumer target identity is inactive"@)
        } else {
            None
        },
    }
}

pub fn check_target_identity(input: &ExternalReadConsumerWrite, lifecycle: Option<&str>) -> (r: Result<(), StoreError>)
    ensures
        refused_with(
            r,
            target_identity_rejection(
                *input,
                match lifecycle {
                    Some(s) => Some(s@),
                    None => None,
                },
            ),
        ),
{
    match lifecycle {
        None => invalid("external read consumer target identity is absent or substituted"),
        Some(state) => if matches!(input.authority, ExternalReadAuthority::McLovingTarget) && !str_eq(state, "active") {
            invalid("external read consumer target identity is inactive")
        } else {
            Ok(())
        },
    }
}

pub open spec fn denied_authority_message(a: Action) -> Seq<char> {
    "external read consumer target identity lacks required "@ + a.name() + " authority"@
}

/// Why the McLoving target identity, as `principal`, cannot take over: the
/// first required action it may not take on the project.
pub open spec fn target_authority_rejection(input: ExternalReadConsumerWrite, principal: Principal) -> Option<Seq<char>> {
    match first_denied(
        principal,
        input.organization_id,
        input.project_id,
        read_actions().filter(|a: Action| action_required(input.endpoint_contracts@, a)),
    ) {
        Some(a) => Some(denied_authority_message(a)),
        None => None,
    }
}

pub fn check_target_authority(input: &ExternalReadConsumerWrite, principal: &Principal) -> (r: Result<(), StoreError>)
    ensures
        refused_with(r, target_authority_rejection(*input, *principal)),
{
    let actions = required_read_actions(input);
    match first_denied_action(principal, input.organization_id, input.project_id, &actions) {
        None => Ok(()),
        Some(a) => {
            let head = concat_str("external read consumer target identity lacks required ", a.as_str());
            let message = concat_str(head.as_str(), " authority");
            assert(message@ =~= denied_authority_message(a));
            Err(StoreError::InvalidConsumerMigration(message))
        },
    }
}

} // verus!
