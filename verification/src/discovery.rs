//! Multibranch and organization-folder discovery: the discovery vocabulary,
//! the checks on parent definitions, scans and observations, how an
//! observed ref is classified against its parent, and the structural check
//! of an exported discovery transfer.
use vstd::prelude::*;
use vstd::utf8::encode_utf8;

use crate::audit::{audit_event_hash, verify_audit_event_hash, AuditEvent};
use crate::encoding::{
    digest_eq, digest_from_slice, hex_encode, hex_lower, is_zero_digest, sha256, sha256_spec, zero_digest,
};
use crate::order::{lemma_sorted_is_sorted_text, sort_strings, sorted_text, views};
use crate::text::{bytes_of, chars_eq, starts_with, str_starts_with,
    any_control, byte_len, chars_of, concat_str, has_control, is_padded, padded, str_eq, utf8_len,
};
use crate::StoreError;

verus! {

#[derive(Clone, Copy, Debug, PartialEq, Eq, Structural)]
pub enum DiscoveryParentKind {
    MultibranchPipeline,
    OrganizationFolder,
}

impl DiscoveryParentKind {
    pub open spec fn name(self) -> Seq<char> {
        match self {
            DiscoveryParentKind::MultibranchPipeline => "multibranch_pipeline"@,
            DiscoveryParentKind::OrganizationFolder => "organization_folder"@,
        }
    }

    pub open spec fn from_name(s: Seq<char>) -> Option<DiscoveryParentKind> {
        if s == "multibranch_pipeline"@ {
            Some(DiscoveryParentKind::MultibranchPipeline)
        } else if s == "organization_folder"@ {
            Some(DiscoveryParentKind::OrganizationFolder)
        } else {
            None
        }
    }

    pub fn as_str(self) -> (s: &'static str)
        ensures
            s@ == self.name(),
    {
        match self {
            DiscoveryParentKind::MultibranchPipeline => "multibranch_pipeline",
            DiscoveryParentKind::OrganizationFolder => "organization_folder",
        }
    }

    pub fn parse(value: &str) -> (r: Result<DiscoveryParentKind, StoreError>)
        ensures
            r matches Ok(v) ==> DiscoveryParentKind::from_name(value@) == Some(v),
            r is Err ==> DiscoveryParentKind::from_name(value@) is None,
            r matches Err(e) ==> e matches StoreError::InvalidDiscovery(m) && m@ == "stored discovery parent kind '"@ + value@ + "' is invalid"@,
    {
        if str_eq(value, "multibranch_pipeline") {
            Ok(DiscoveryParentKind::MultibranchPipeline)
        } else if str_eq(value, "organization_folder") {
            Ok(DiscoveryParentKind::OrganizationFolder)
        } else {
            let head = concat_str("stored discovery parent kind '", value);
            Err(StoreError::InvalidDiscovery(concat_str(head.as_str(), "' is invalid")))
        }
    }
}

/// Parsing the stored name of a value gives the value back.
pub proof fn law_discovery_parent_kind_round_trip(v: DiscoveryParentKind)
    ensures
        DiscoveryParentKind::from_name(v.name()) == Some(v),
{
    reveal_strlit("multibranch_pipeline");
    reveal_strlit("organization_folder");
    assert("multibranch_pipeline"@.len() == 20);
    assert("organization_folder"@.len() == 19);
}

#[derive(Clone, Copy, Debug, PartialEq, Eq, Structural)]
pub enum DiscoveryParentState {
    Enabled,
    Quiesced,
}

impl DiscoveryParentState {
    pub open spec fn name(self) -> Seq<char> {
        match self {
            DiscoveryParentState::Enabled => "enabled"@,
            DiscoveryParentState::Quiesced => "quiesced"@,
        }
    }

    pub open spec fn from_name(s: Seq<char>) -> Option<DiscoveryParentState> {
        if s == "enabled"@ {
            Some(DiscoveryParentState::Enabled)
        } else if s == "quiesced"@ {
            Some(DiscoveryParentState::Quiesced)
        } else {
            None
        }
    }

    pub fn as_str(self) -> (s: &'static str)
        ensures
            s@ == self.name(),
    {
        match self {
            DiscoveryParentState::Enabled => "enabled",
            DiscoveryParentState::Quiesced => "quiesced",
        }
    }

    pub fn parse(value: &str) -> (r: Result<DiscoveryParentState, StoreError>)
        ensures
            r matches Ok(v) ==> DiscoveryParentState::from_name(value@) == Some(v),
            r is Err ==> DiscoveryParentState::from_name(value@) is None,
            r matches Err(e) ==> e matches StoreError::InvalidDiscovery(m) && m@ == "stored discovery parent state '"@ + value@ + "' is invalid"@,
    {
        if str_eq(value, "enabled") {
            Ok(DiscoveryParentState::Enabled)
        } else if str_eq(value, "quiesced") {
            Ok(DiscoveryParentState::Quiesced)
        } else {
            let head = concat_str("stored discovery parent state '", value);
            Err(StoreError::InvalidDiscovery(concat_str(head.as_str(), "' is invalid")))
        }
    }
}

/// Parsing the stored name of a value gives the value back.
pub proof fn law_discovery_parent_state_round_trip(v: DiscoveryParentState)
    ensures
        DiscoveryParentState::from_name(v.name()) == Some(v),
{
    reveal_strlit("enabled");
    reveal_strlit("quiesced");
    assert("enabled"@.len() == 7);
    assert("quiesced"@.len() == 8);
}

#[derive(Clone, Copy, Debug, PartialEq, Eq, Structural)]
pub enum PullRequestDiscoveryStrategy {
    NoPullRequests,
    OriginOnly,
    OriginAndForks,
}

impl PullRequestDiscoveryStrategy {
    pub open spec fn name(self) -> Seq<char> {
        match self {
            PullRequestDiscoveryStrategy::NoPullRequests => "none"@,
            PullRequestDiscoveryStrategy::OriginOnly => "origin_only"@,
            PullRequestDiscoveryStrategy::OriginAndForks => "origin_and_forks"@,
        }
    }

    pub open spec fn from_name(s: Seq<char>) -> Option<PullRequestDiscoveryStrategy> {
        if s == "none"@ {
            Some(PullRequestDiscoveryStrategy::NoPullRequests)
        } else if s == "origin_only"@ {
            Some(PullRequestDiscoveryStrategy::OriginOnly)
        } else if s == "origin_and_forks"@ {
            Some(PullRequestDiscoveryStrategy::OriginAndForks)
        } else {
            None
        }
    }

    pub fn as_str(self) -> (s: &'static str)
        ensures
            s@ == self.name(),
    {
        match self {
            PullRequestDiscoveryStrategy::NoPullRequests => "none",
            PullRequestDiscoveryStrategy::OriginOnly => "origin_only",
            PullRequestDiscoveryStrategy::OriginAndForks => "origin_and_forks",
        }
    }

    pub fn parse(value: &str) -> (r: Result<PullRequestDiscoveryStrategy, StoreError>)
        ensures
            r matches Ok(v) ==> PullRequestDiscoveryStrategy::from_name(value@) == Some(v),
            r is Err ==> PullRequestDiscoveryStrategy::from_name(value@) is None,
            r matches Err(e) ==> e matches StoreError::InvalidDiscovery(m) && m@ == "stored pull-request strategy '"@ + value@ + "' is invalid"@,
    {
        if str_eq(value, "none") {
            Ok(PullRequestDiscoveryStrategy::NoPullRequests)
        } else if str_eq(value, "origin_only") {
            Ok(PullRequestDiscoveryStrategy::OriginOnly)
        } else if str_eq(value, "origin_and_forks") {
            Ok(PullRequestDiscoveryStrategy::OriginAndForks)
        } else {
            let head = concat_str("stored pull-request strategy '", value);
            Err(StoreError::InvalidDiscovery(concat_str(head.as_str(), "' is invalid")))
        }
    }
}

/// Parsing the stored name of a value gives the value back.
pub proof fn law_pull_request_discovery_strategy_round_trip(v: PullRequestDiscoveryStrategy)
    ensures
        PullRequestDiscoveryStrategy::from_name(v.name()) == Some(v),
{
    reveal_strlit("none");
    reveal_strlit("origin_only");
    reveal_strlit("origin_and_forks");
    assert("none"@.len() == 4);
    assert("origin_only"@.len() == 11);
    assert("origin_and_forks"@.len() == 16);
}

#[derive(Clone, Copy, Debug, PartialEq, Eq, Structural)]
pub enum ForkTrustStrategy {
    NoForks,
    NamedRepositories,
    All,
}

impl ForkTrustStrategy {
    pub open spec fn name(self) -> Seq<char> {
        match self {
            ForkTrustStrategy::NoForks => "none"@,
            ForkTrustStrategy::NamedRepositories => "named_repositories"@,
            ForkTrustStrategy::All => "all"@,
        }
    }

    pub open spec fn from_name(s: Seq<char>) -> Option<ForkTrustStrategy> {
        if s == "none"@ {
            Some(ForkTrustStrategy::NoForks)
        } else if s == "named_repositories"@ {
            Some(ForkTrustStrategy::NamedRepositories)
        } else if s == "all"@ {
            Some(ForkTrustStrategy::All)
        } else {
            None
        }
    }

    pub fn as_str(self) -> (s: &'static str)
        ensures
            s@ == self.name(),
    {
        match self {
            ForkTrustStrategy::NoForks => "none",
            ForkTrustStrategy::NamedRepositories => "named_repositories",
            ForkTrustStrategy::All => "all",
        }
    }

    pub fn parse(value: &str) -> (r: Result<ForkTrustStrategy, StoreError>)
        ensures
            r matches Ok(v) ==> ForkTrustStrategy::from_name(value@) == Some(v),
            r is Err ==> ForkTrustStrategy::from_name(value@) is None,
            r matches Err(e) ==> e matches StoreError::InvalidDiscovery(m) && m@ == "stored fork-trust strategy '"@ + value@ + "' is invalid"@,
    {
        if str_eq(value, "none") {
            Ok(ForkTrustStrategy::NoForks)
        } else if str_eq(value, "named_repositories") {
            Ok(ForkTrustStrategy::NamedRepositories)
        } else if str_eq(value, "all") {
            Ok(ForkTrustStrategy::All)
        } else {
            let head = concat_str("stored fork-trust strategy '", value);
            Err(StoreError::InvalidDiscovery(concat_str(head.as_str(), "' is invalid")))
        }
    }
}

/// Parsing the stored name of a value gives the value back.
pub proof fn law_fork_trust_strategy_round_trip(v: ForkTrustStrategy)
    ensures
        ForkTrustStrategy::from_name(v.name()) == Some(v),
{
    reveal_strlit("none");
    reveal_strlit("named_repositories");
    reveal_strlit("all");
    assert("none"@.len() == 4);
    assert("named_repositories"@.len() == 18);
    assert("all"@.len() == 3);
}

#[derive(Clone, Copy, Debug, PartialEq, Eq, Structural)]
pub enum OrphanPolicy {
    Retain,
    Retire,
}

impl OrphanPolicy {
    pub open spec fn name(self) -> Seq<char> {
        match self {
            OrphanPolicy::Retain => "retain"@,
            OrphanPolicy::Retire => "retire"@,
        }
    }

    pub open spec fn from_name(s: Seq<char>) -> Option<OrphanPolicy> {
        if s == "retain"@ {
            Some(OrphanPolicy::Retain)
        } else if s == "retire"@ {
            Some(OrphanPolicy::Retire)
        } else {
            None
        }
    }

    pub fn as_str(self) -> (s: &'static str)
        ensures
            s@ == self.name(),
    {
        match self {
            OrphanPolicy::Retain => "retain",
            OrphanPolicy::Retire => "retire",
        }
    }

    pub fn parse(value: &str) -> (r: Result<OrphanPolicy, StoreError>)
        ensures
            r matches Ok(v) ==> OrphanPolicy::from_name(value@) == Some(v),
            r is Err ==> OrphanPolicy::from_name(value@) is None,
            r matches Err(e) ==> e matches StoreError::InvalidDiscovery(m) && m@ == "stored orphan policy '"@ + value@ + "' is invalid"@,
    {
        if str_eq(value, "retain") {
            Ok(OrphanPolicy::Retain)
        } else if str_eq(value, "retire") {
            Ok(OrphanPolicy::Retire)
        } else {
            let head = concat_str("stored orphan policy '", value);
            Err(StoreError::InvalidDiscovery(concat_str(head.as_str(), "' is invalid")))
        }
    }
}

/// Parsing the stored name of a value gives the value back.
pub proof fn law_orphan_policy_round_trip(v: OrphanPolicy)
    ensures
        OrphanPolicy::from_name(v.name()) == Some(v),
{
    reveal_strlit("retain");
    reveal_strlit("retire");
    assert("retain"@.len() == 6);
    assert("retire"@.len() == 6);
    assert("retain"@[3] == 'a');
    assert("retire"@[3] == 'i');
}

#[derive(Clone, Copy, Debug, PartialEq, Eq, Structural)]
pub enum DiscoveryScanSource {
    Webhook,
    Periodic,
    Recovery,
}

impl DiscoveryScanSource {
    pub open spec fn name(self) -> Seq<char> {
        match self {
            DiscoveryScanSource::Webhook => "webhook"@,
            DiscoveryScanSource::Periodic => "periodic"@,
            DiscoveryScanSource::Recovery => "recovery"@,
        }
    }

    pub open spec fn from_name(s: Seq<char>) -> Option<DiscoveryScanSource> {
        if s == "webhook"@ {
            Some(DiscoveryScanSource::Webhook)
        } else if s == "periodic"@ {
            Some(DiscoveryScanSource::Periodic)
        } else if s == "recovery"@ {
            Some(DiscoveryScanSource::Recovery)
        } else {
            None
        }
    }

    pub fn as_str(self) -> (s: &'static str)
        ensures
            s@ == self.name(),
    {
        match self {
            DiscoveryScanSource::Webhook => "webhook",
            DiscoveryScanSource::Periodic => "periodic",
            DiscoveryScanSource::Recovery => "recovery",
        }
    }

    /// The source a stored name denotes; any other name is refused.
    pub fn parse(value: &str) -> (r: Result<DiscoveryScanSource, StoreError>)
        ensures
            r matches Ok(v) ==> DiscoveryScanSource::from_name(value@) == Some(v),
            r is Err <==> DiscoveryScanSource::from_name(value@) is None,
            r matches Err(e) ==> e matches StoreError::InvalidDiscovery(m) && m@ == "stored discovery scan source '"@
                + value@ + "' is invalid"@,
    {
        if str_eq(value, "webhook") {
            Ok(DiscoveryScanSource::Webhook)
        } else if str_eq(value, "periodic") {
            Ok(DiscoveryScanSource::Periodic)
        } else if str_eq(value, "recovery") {
            Ok(DiscoveryScanSource::Recovery)
        } else {
            let head = concat_str("stored discovery scan source '", value);
            let message = concat_str(head.as_str(), "' is invalid");
            assert(message@ =~= "stored discovery scan source '"@ + value@ + "' is invalid"@);
            Err(StoreError::InvalidDiscovery(message))
        }
    }
}

#[derive(Clone, Copy, Debug, PartialEq, Eq, Structural)]
pub enum DiscoveredRefKind {
    Branch,
    PullRequest,
}

impl DiscoveredRefKind {
    pub open spec fn name(self) -> Seq<char> {
        match self {
            DiscoveredRefKind::Branch => "branch"@,
            DiscoveredRefKind::PullRequest => "pull_request"@,
        }
    }

    pub open spec fn from_name(s: Seq<char>) -> Option<DiscoveredRefKind> {
        if s == "branch"@ {
            Some(DiscoveredRefKind::Branch)
        } else if s == "pull_request"@ {
            Some(DiscoveredRefKind::PullRequest)
        } else {
            None
        }
    }

    pub fn as_str(self) -> (s: &'static str)
        ensures
            s@ == self.name(),
    {
        match self {
            DiscoveredRefKind::Branch => "branch",
            DiscoveredRefKind::PullRequest => "pull_request",
        }
    }

    pub fn parse(value: &str) -> (r: Result<DiscoveredRefKind, StoreError>)
        ensures
            r matches Ok(v) ==> DiscoveredRefKind::from_name(value@) == Some(v),
            r is Err ==> DiscoveredRefKind::from_name(value@) is None,
            r matches Err(e) ==> e matches StoreError::InvalidDiscovery(m) && m@ == "stored discovered ref kind '"@ + value@ + "' is invalid"@,
    {
        if str_eq(value, "branch") {
            Ok(DiscoveredRefKind::Branch)
        } else if str_eq(value, "pull_request") {
            Ok(DiscoveredRefKind::PullRequest)
        } else {
            let head = concat_str("stored discovered ref kind '", value);
            Err(StoreError::InvalidDiscovery(concat_str(head.as_str(), "' is invalid")))
        }
    }
}

/// Parsing the stored name of a value gives the value back.
pub proof fn law_discovered_ref_kind_round_trip(v: DiscoveredRefKind)
    ensures
        DiscoveredRefKind::from_name(v.name()) == Some(v),
{
    reveal_strlit("branch");
    reveal_strlit("pull_request");
    assert("branch"@.len() == 6);
    assert("pull_request"@.len() == 12);
}

#[derive(Clone, Copy, Debug, PartialEq, Eq, Structural)]
pub enum DiscoveryChildState {
    Active,
    Quarantined,
    Retired,
}

impl DiscoveryChildState {
    pub open spec fn name(self) -> Seq<char> {
        match self {
            DiscoveryChildState::Active => "active"@,
            DiscoveryChildState::Quarantined => "quarantined"@,
            DiscoveryChildState::Retired => "retired"@,
        }
    }

    pub open spec fn from_name(s: Seq<char>) -> Option<DiscoveryChildState> {
        if s == "active"@ {
            Some(DiscoveryChildState::Active)
        } else if s == "quarantined"@ {
            Some(DiscoveryChildState::Quarantined)
        } else if s == "retired"@ {
            Some(DiscoveryChildState::Retired)
        } else {
            None
        }
    }

    pub fn as_str(self) -> (s: &'static str)
        ensures
            s@ == self.name(),
    {
        match self {
            DiscoveryChildState::Active => "active",
            DiscoveryChildState::Quarantined => "quarantined",
            DiscoveryChildState::Retired => "retired",
        }
    }

    pub fn parse(value: &str) -> (r: Result<DiscoveryChildState, StoreError>)
        ensures
            r matches Ok(v) ==> DiscoveryChildState::from_name(value@) == Some(v),
            r is Err ==> DiscoveryChildState::from_name(value@) is None,
            r matches Err(e) ==> e matches StoreError::InvalidDiscovery(m) && m@ == "stored discovery child state '"@ + value@ + "' is invalid"@,
    {
        if str_eq(value, "active") {
            Ok(DiscoveryChildState::Active)
        } else if str_eq(value, "quarantined") {
            Ok(DiscoveryChildState::Quarantined)
        } else if str_eq(value, "retired") {
            Ok(DiscoveryChildState::Retired)
        } else {
            let head = concat_str("stored discovery child state '", value);
            Err(StoreError::InvalidDiscovery(concat_str(head.as_str(), "' is invalid")))
        }
    }
}

/// Parsing the stored name of a value gives the value back.
pub proof fn law_discovery_child_state_round_trip(v: DiscoveryChildState)
    ensures
        DiscoveryChildState::from_name(v.name()) == Some(v),
{
    reveal_strlit("active");
    reveal_strlit("quarantined");
    reveal_strlit("retired");
    assert("active"@.len() == 6);
    assert("quarantined"@.len() == 11);
    assert("retired"@.len() == 7);
}

#[derive(Clone, Copy, Debug, PartialEq, Eq, Structural)]
pub enum DiscoveryObservationDisposition {
    Active,
    Quarantined,
    Filtered,
    Absent,
}

impl DiscoveryObservationDisposition {
    pub open spec fn name(self) -> Seq<char> {
        match self {
            DiscoveryObservationDisposition::Active => "active"@,
            DiscoveryObservationDisposition::Quarantined => "quarantined"@,
            DiscoveryObservationDisposition::Filtered => "filtered"@,
            DiscoveryObservationDisposition::Absent => "absent"@,
        }
    }

    pub open spec fn from_name(s: Seq<char>) -> Option<DiscoveryObservationDisposition> {
        if s == "active"@ {
            Some(DiscoveryObservationDisposition::Active)
        } else if s == "quarantined"@ {
            Some(DiscoveryObservationDisposition::Quarantined)
        } else if s == "filtered"@ {
            Some(DiscoveryObservationDisposition::Filtered)
        } else if s == "absent"@ {
            Some(DiscoveryObservationDisposition::Absent)
        } else {
            None
        }
    }

    pub fn as_str(self) -> (s: &'static str)
        ensures
            s@ == self.name(),
    {
        match self {
            DiscoveryObservationDisposition::Active => "active",
            DiscoveryObservationDisposition::Quarantined => "quarantined",
            DiscoveryObservationDisposition::Filtered => "filtered",
            DiscoveryObservationDisposition::Absent => "absent",
        }
    }

    pub fn parse(value: &str) -> (r: Result<DiscoveryObservationDisposition, StoreError>)
        ensures
            r matches Ok(v) ==> DiscoveryObservationDisposition::from_name(value@) == Some(v),
            r is Err ==> DiscoveryObservationDisposition::from_name(value@) is None,
            r matches Err(e) ==> e matches StoreError::InvalidDiscovery(m) && m@ == "stored discovery observation disposition '"@ + value@ + "' is invalid"@,
    {
        if str_eq(value, "active") {
            Ok(DiscoveryObservationDisposition::Active)
        } else if str_eq(value, "quarantined") {
            Ok(DiscoveryObservationDisposition::Quarantined)
        } else if str_eq(value, "filtered") {
            Ok(DiscoveryObservationDisposition::Filtered)
        } else if str_eq(value, "absent") {
            Ok(DiscoveryObservationDisposition::Absent)
        } else {
            let head = concat_str("stored discovery observation disposition '", value);
            Err(StoreError::InvalidDiscovery(concat_str(head.as_str(), "' is invalid")))
        }
    }
}

/// Parsing the stored name of a value gives the value back.
pub proof fn law_discovery_observation_disposition_round_trip(v: DiscoveryObservationDisposition)
    ensures
        DiscoveryObservationDisposition::from_name(v.name()) == Some(v),
{
    reveal_strlit("active");
    reveal_strlit("quarantined");
    reveal_strlit("filtered");
    reveal_strlit("absent");
    assert("active"@.len() == 6);
    assert("quarantined"@.len() == 11);
    assert("filtered"@.len() == 8);
    assert("absent"@.len() == 6);
    assert("absent"@[1] == 'b');
    assert("active"@[1] == 'c');
}

pub const MAX_TEXT_BYTES: usize = 512;
pub const MAX_PATH_BYTES: usize = 1024;
pub const MAX_REASON_BYTES: usize = 2048;
pub const MAX_SET_ITEMS: usize = 4096;
pub const MAX_JSONB_TEXT_BYTES: usize = 65536;

/// The refusal `r` carries, as an invalid discovery request with message `m`.
pub open spec fn refused_with(r: Result<(), StoreError>, rejection: Option<Seq<char>>) -> bool {
    match r {
        Ok(()) => rejection is None,
        Err(StoreError::InvalidDiscovery(m)) => rejection == Some(m@),
        Err(_) => false,
    }
}

/// The first of two checks that refuses.
pub open spec fn first_of(a: Option<Seq<char>>, b: Option<Seq<char>>) -> Option<Seq<char>> {
    if a is Some {
        a
    } else {
        b
    }
}

fn invalid(message: &str) -> (r: Result<(), StoreError>)
    ensures
        refused_with(r, Some(message@)),
{
    Err(StoreError::InvalidDiscovery(message.to_owned()))
}

/// Non-empty, not padded, at most `max` UTF-8 bytes, no control characters.
pub open spec fn discovery_text_ok(s: Seq<char>, max: nat) -> bool {
    s.len() > 0 && !is_padded(s) && byte_len(s) <= max && !has_control(s)
}

pub open spec fn text_check(name: Seq<char>, value: Seq<char>, max: nat) -> Option<Seq<char>> {
    if discovery_text_ok(value, max) {
        None
    } else {
        Some(name + " is outside its bounds"@)
    }
}

pub fn validate_text(name: &str, value: &str, maximum: usize) -> (r: Result<(), StoreError>)
    ensures
        refused_with(r, text_check(name@, value@, maximum as nat)),
{
    let empty = chars_of(value).len() == 0;
    if empty || padded(value) || utf8_len(value) > maximum || any_control(value) {
        return Err(StoreError::InvalidDiscovery(concat_str(name, " is outside its bounds")));
    }
    Ok(())
}

pub open spec fn digest_check(name: Seq<char>, digest: Seq<u8>) -> Option<Seq<char>> {
    if digest == zero_digest() {
        Some(name + " digest cannot be all zeroes"@)
    } else {
        None
    }
}

pub fn validate_digest(name: &str, digest: [u8; 32]) -> (r: Result<(), StoreError>)
    ensures
        refused_with(r, digest_check(name@, digest@)),
{
    if is_zero_digest(&digest) {
        return Err(StoreError::InvalidDiscovery(concat_str(name, " digest cannot be all zeroes")));
    }
    Ok(())
}

/// Index of the first `/`, or the length when there is none.
pub open spec fn first_slash(s: Seq<char>) -> nat
    decreases s.len(),
{
    if s.len() == 0 {
        0
    } else if s[0] == '/' {
        0
    } else {
        1 + first_slash(s.drop_first())
    }
}

/// An empty, `.` or `..` path segment.
pub open spec fn bad_segment(seg: Seq<char>) -> bool {
    seg.len() == 0 || seg == seq!['.'] || seg == seq!['.', '.']
}

/// Some `/`-separated segment of `s` is empty, `.` or `..`.
pub open spec fn has_bad_segment(s: Seq<char>) -> bool
    decreases s.len(),
{
    let f = first_slash(s);
    if f < s.len() {
        bad_segment(s.take(f as int)) || has_bad_segment(s.skip(f + 1int))
    } else {
        bad_segment(s)
    }
}

/// A relative path with no leading or trailing `/`, no `\\`, and no empty,
/// `.` or `..` segment.
pub open spec fn normalized_relative_path(s: Seq<char>) -> bool {
    !(s.len() > 0 && s[0] == '/') && !(s.len() > 0 && s.last() == '/') && !s.contains('\\') && !has_bad_segment(s)
}

proof fn lemma_first_slash(s: Seq<char>)
    ensures
        first_slash(s) <= s.len(),
        forall|i: int| 0 <= i < first_slash(s) ==> s[i] != '/',
        first_slash(s) < s.len() ==> s[first_slash(s) as int] == '/',
    decreases s.len(),
{
    if s.len() > 0 && s[0] != '/' {
        lemma_first_slash(s.drop_first());
        assert forall|i: int| 0 <= i < first_slash(s) implies s[i] != '/' by {
            if i > 0 {
                assert(s[i] == s.drop_first()[i - 1]);
            }
        }
    }
}

proof fn lemma_first_slash_at(s: Seq<char>, start: int, f: int)
    requires
        0 <= start <= f <= s.len(),
        forall|i: int| start <= i < f ==> s[i] != '/',
        f < s.len() ==> s[f] == '/',
    ensures
        first_slash(s.skip(start)) == f - start,
    decreases f - start,
{
    let t = s.skip(start);
    if start < f {
        assert(t[0] == s[start]);
        assert(t.drop_first() =~= s.skip(start + 1));
        lemma_first_slash_at(s, start + 1, f);
    } else if f < s.len() {
        assert(t[0] == s[f]);
    }
}

fn segment_is_bad(cs: &Vec<char>, start: usize, end: usize) -> (r: bool)
    requires
        start <= end <= cs@.len(),
    ensures
        r == bad_segment(cs@.subrange(start as int, end as int)),
{
    let n = end - start;
    if n == 0 {
        return true;
    }
    let ghost seg = cs@.subrange(start as int, end as int);
    if n == 1 {
        let r = cs[start] == '.';
        if r {
            assert(seg =~= seq!['.']);
        } else {
            assert(seg[0] != seq!['.'][0]);
        }
        return r;
    }
    if n == 2 {
        let r = cs[start] == '.' && cs[start + 1] == '.';
        if r {
            assert(seg =~= seq!['.', '.']);
        } else if cs[start] != '.' {
            assert(seg[0] != seq!['.', '.'][0]);
        } else {
            assert(seg[1] != seq!['.', '.'][1]);
        }
        return r;
    }
    assert(cs@.subrange(start as int, end as int).len() != 1);
    assert(cs@.subrange(start as int, end as int).len() != 2);
    false
}

pub fn validate_relative_path(value: &str) -> (r: Result<(), StoreError>)
    ensures
        refused_with(
            r,
            if normalized_relative_path(value@) {
                None
            } else {
                Some("Jenkinsfile path must be a normalized relative path"@)
            },
        ),
{
    let cs = chars_of(value);
    let n = cs.len();
    let mut backslash = false;
    let mut k: usize = 0;
    while k < n
        invariant
            n == cs@.len(),
            k <= n,
            backslash == exists|j: int| 0 <= j < k && cs@[j] == '\\',
        decreases n - k,
    {
        if cs[k] == '\\' {
            backslash = true;
        }
        k = k + 1;
    }
    let leading = n > 0 && cs[0] == '/';
    let trailing = n > 0 && cs[n - 1] == '/';
    let mut bad = false;
    let mut start: usize = 0;
    let mut done = false;
    assert(cs@.skip(0) =~= cs@);
    while !done
        invariant
            n == cs@.len(),
            start <= n,
            has_bad_segment(cs@) == (bad || (!done && has_bad_segment(cs@.skip(start as int)))),
        decreases n - start + if done { 0int } else { 1int },
    {
        let mut f: usize = start;
        while f < n && cs[f] != '/'
            invariant
                n == cs@.len(),
                start <= f <= n,
                forall|i: int| start <= i < f ==> cs@[i] != '/',
            decreases n - f,
        {
            f = f + 1;
        }
        proof {
            lemma_first_slash_at(cs@, start as int, f as int);
            let t = cs@.skip(start as int);
            assert(t.take(f - start) =~= cs@.subrange(start as int, f as int));
            if f < n {
                assert(t.skip(f - start + 1) =~= cs@.skip(f + 1));
            } else {
                assert(t =~= cs@.subrange(start as int, f as int));
            }
        }
        if segment_is_bad(&cs, start, f) {
            bad = true;
        }
        if f < n {
            start = f + 1;
        } else {
            done = true;
        }
    }
    proof {
        assert(value@ == cs@);
        if backslash {
            let j = choose|j: int| 0 <= j < k && cs@[j] == '\\';
            assert(cs@.contains('\\'));
        }
        if cs@.contains('\\') {
            let j = choose|j: int| 0 <= j < cs@.len() && cs@[j] == '\\';
            assert(backslash);
        }
    }
    if leading || trailing || backslash || bad {
        return invalid("Jenkinsfile path must be a normalized relative path");
    }
    Ok(())
}

/// A lower-case hexadecimal digit, as an ASCII byte.
pub open spec fn json_hex_digit(n: int) -> u8 {
    if n < 10 {
        (48 + n) as u8
    } else {
        (87 + n) as u8
    }
}

/// How compact JSON writes one byte of a string: `"` and `\` and the
/// control bytes are escaped (`\b`, `\t`, `\n`, `\f`, `\r`, else
/// `\u00` and two lower-case hex digits); every other byte is kept.
pub open spec fn json_escape_byte(b: u8) -> Seq<u8> {
    if b == 0x08 {
        seq![92u8, 98u8]
    } else if b == 0x09 {
        seq![92u8, 116u8]
    } else if b == 0x0a {
        seq![92u8, 110u8]
    } else if b == 0x0c {
        seq![92u8, 102u8]
    } else if b == 0x0d {
        seq![92u8, 114u8]
    } else if b == 0x22 {
        seq![92u8, 34u8]
    } else if b == 0x5c {
        seq![92u8, 92u8]
    } else if b < 0x20 {
        seq![92u8, 117u8, 48u8, 48u8, json_hex_digit((b / 16) as int), json_hex_digit((b % 16) as int)]
    } else {
        seq![b]
    }
}

pub open spec fn json_escaped(bytes: Seq<u8>) -> Seq<u8>
    decreases bytes.len(),
{
    if bytes.len() == 0 {
        Seq::empty()
    } else {
        json_escaped(bytes.drop_last()) + json_escape_byte(bytes.last())
    }
}

/// A JSON string: its UTF-8 bytes, escaped, between quotes.
pub open spec fn json_string(s: Seq<char>) -> Seq<u8> {
    seq![34u8] + json_escaped(encode_utf8(s)) + seq![34u8]
}

/// The JSON strings of a list, joined by commas.
pub open spec fn json_string_items(values: Seq<Seq<char>>) -> Seq<u8>
    decreases values.len(),
{
    if values.len() == 0 {
        Seq::empty()
    } else if values.len() == 1 {
        json_string(values[0])
    } else {
        json_string_items(values.drop_last()) + seq![44u8] + json_string(values.last())
    }
}

/// The compact JSON encoding of a list of strings: `[`, the strings joined
/// by commas, `]`.
pub open spec fn json_string_list(values: Seq<Seq<char>>) -> Seq<u8> {
    seq![91u8] + json_string_items(values) + seq![93u8]
}

/// Calls `serde_json::to_vec` on a list of strings and returns the compact
/// JSON bytes, which `json_string_list` spells out as serde_json's compact
/// formatter writes them; serializing strings into memory does not fail.
#[verifier::external_body]
fn compact_json(values: &[String]) -> (r: Vec<u8>)
    ensures
        r@ == json_string_list(views(values@)),
{
    match serde_json::to_vec(values) {
        Ok(bytes) => bytes,
        Err(_) => Vec::new(),
    }
}

/// The first value of a string set, in order, that is out of bounds or
/// repeats an earlier one.
pub open spec fn first_value_rejection(name: Seq<char>, values: Seq<Seq<char>>) -> Option<Seq<char>>
    decreases values.len(),
{
    if values.len() == 0 {
        None
    } else {
        let earlier = first_value_rejection(name, values.drop_last());
        if earlier is Some {
            earlier
        } else if !discovery_text_ok(values.last(), MAX_TEXT_BYTES as nat) {
            Some(name + " is outside its bounds"@)
        } else if values.drop_last().contains(values.last()) {
            Some(name + " contains duplicates"@)
        } else {
            None
        }
    }
}

/// Bytes the set takes as database JSON text: compact JSON plus one space
/// after every separator.
pub open spec fn database_text_bytes(values: Seq<Seq<char>>) -> int {
    json_string_list(values).len() + if values.len() > 0 {
        values.len() - 1
    } else {
        0
    }
}

pub open spec fn string_set_rejection(name: Seq<char>, values: Seq<Seq<char>>) -> Option<Seq<char>> {
    if values.len() > MAX_SET_ITEMS {
        Some(name + " exceeds its item bound"@)
    } else if first_value_rejection(name, values) is Some {
        first_value_rejection(name, values)
    } else if database_text_bytes(values) > MAX_JSONB_TEXT_BYTES {
        Some(name + " exceeds its serialized size bound"@)
    } else {
        None
    }
}

proof fn lemma_first_value_prefix(name: Seq<char>, vs: Seq<Seq<char>>, n: int)
    requires
        0 <= n <= vs.len(),
        first_value_rejection(name, vs.take(n)) is Some,
    ensures
        first_value_rejection(name, vs) == first_value_rejection(name, vs.take(n)),
    decreases vs.len() - n,
{
    if n < vs.len() {
        assert(vs.take(n + 1).drop_last() =~= vs.take(n));
        lemma_first_value_prefix(name, vs, n + 1);
    } else {
        assert(vs.take(n) =~= vs);
    }
}

/// Checks a configured string set: bounded in size, every value in bounds
/// and distinct, and small enough as database JSON text.
pub fn validate_string_set(name: &str, values: &Vec<String>) -> (r: Result<(), StoreError>)
    ensures
        refused_with(r, string_set_rejection(name@, views(values@))),
{
    let ghost vs = views(values@);
    if values.len() > MAX_SET_ITEMS {
        return Err(StoreError::InvalidDiscovery(concat_str(name, " exceeds its item bound")));
    }
    let mut keys: Vec<Vec<char>> = Vec::new();
    let mut i: usize = 0;
    assert(vs.take(0) =~= Seq::<Seq<char>>::empty());
    while i < values.len()
        invariant
            i <= values@.len(),
            vs == views(values@),
            vs.len() == values@.len(),
            values@.len() <= MAX_SET_ITEMS,
            keys@.len() == i,
            forall|j: int| 0 <= j < i ==> (#[trigger] keys@[j])@ == vs[j],
            first_value_rejection(name@, vs.take(i as int)) is None,
        decreases values@.len() - i,
    {
        proof {
            assert(vs.take(i + 1).drop_last() =~= vs.take(i as int));
            assert(vs.take(i + 1).last() == values@[i as int]@);
        }
        if let Err(e) = validate_text(name, values[i].as_str(), MAX_TEXT_BYTES) {
            proof {
                lemma_first_value_prefix(name@, vs, i + 1);
            }
            return Err(e);
        }
        let key = chars_of(values[i].as_str());
        let mut j: usize = 0;
        while j < i
            invariant
                i < values@.len(),
                j <= i,
                keys@.len() == i,
                key@ == vs[i as int],
                vs == views(values@),
                vs.len() == values@.len(),
                values@.len() <= MAX_SET_ITEMS,
                discovery_text_ok(vs[i as int], MAX_TEXT_BYTES as nat),
                first_value_rejection(name@, vs.take(i as int)) is None,
                forall|q: int| 0 <= q < i ==> (#[trigger] keys@[q])@ == vs[q],
                forall|q: int| 0 <= q < j ==> vs[q] != vs[i as int],
            decreases i - j,
        {
            if chars_eq(&keys[j], &key) {
                proof {
                    assert(vs.take(i + 1).drop_last() =~= vs.take(i as int));
                    assert(vs.take(i + 1).last() == vs[i as int]);
                    assert(vs.take(i as int)[j as int] == vs[i as int]);
                    assert(vs.take(i + 1).drop_last().contains(vs.take(i + 1).last()));
                    lemma_first_value_prefix(name@, vs, i + 1);
                }
                return Err(StoreError::InvalidDiscovery(concat_str(name, " contains duplicates")));
            }
            j = j + 1;
        }
        proof {
            if vs.take(i as int).contains(vs[i as int]) {
                let q = choose|q: int| 0 <= q < i && vs.take(i as int)[q] == vs[i as int];
                assert(vs[q] == vs[i as int]);
            }
        }
        keys.push(key);
        i = i + 1;
    }
    assert(vs.take(vs.len() as int) =~= vs);
    let json = compact_json(values.as_slice());
    let separators: usize = if values.len() > 0 {
        values.len() - 1
    } else {
        0
    };
    let oversized = match json.len().checked_add(separators) {
        Some(total) => total > MAX_JSONB_TEXT_BYTES,
        None => true,
    };
    if oversized {
        return Err(StoreError::InvalidDiscovery(concat_str(name, " exceeds its serialized size bound")));
    }
    Ok(())
}

/// A parent definition as an operator writes it.
#[derive(Clone, Debug, PartialEq, Eq)]
pub struct DiscoveryParentWrite {
    pub organization_id: u128,
    pub project_id: u128,
    pub pipeline_id: u128,
    pub parent_id: u128,
    pub expected_generation: i64,
    pub kind: DiscoveryParentKind,
    pub state: DiscoveryParentState,
    pub implementation_sha256: [u8; 32],
    pub protocol_version: String,
    pub expected_configuration_sha256: [u8; 32],
    pub provider: String,
    pub provider_identity: String,
    pub organization_identity: Option<String>,
    pub repositories: Vec<String>,
    pub branch_includes: Vec<String>,
    pub branch_excludes: Vec<String>,
    pub pull_request_strategy: PullRequestDiscoveryStrategy,
    pub fork_trust_strategy: ForkTrustStrategy,
    pub trusted_fork_repositories: Vec<String>,
    pub jenkinsfile_path: String,
    pub child_configuration_policy_sha256: [u8; 32],
    pub orphan_policy: OrphanPolicy,
    pub authorization_generation: i64,
    pub authorization_policy_sha256: [u8; 32],
    pub trigger_id: u128,
    pub trigger_generation: i64,
    pub trigger_configuration_sha256: [u8; 32],
    pub source_implementation_sha256: [u8; 32],
    pub source_protocol_version: String,
    pub source_configuration_sha256: [u8; 32],
    pub restored_from_generation: Option<i64>,
    pub actor_subject: String,
    pub reason: String,
    pub idempotency_key: String,
}

/// One stored generation of a parent definition.
#[derive(Clone, Debug, PartialEq, Eq)]
pub struct DiscoveryParent {
    pub organization_id: u128,
    pub project_id: u128,
    pub pipeline_id: u128,
    pub parent_id: u128,
    pub generation: i64,
    pub kind: DiscoveryParentKind,
    pub state: DiscoveryParentState,
    pub implementation_sha256: [u8; 32],
    pub protocol_version: String,
    pub configuration_sha256: [u8; 32],
    pub provider: String,
    pub provider_identity: String,
    pub organization_identity: Option<String>,
    pub repositories: Vec<String>,
    pub branch_includes: Vec<String>,
    pub branch_excludes: Vec<String>,
    pub pull_request_strategy: PullRequestDiscoveryStrategy,
    pub fork_trust_strategy: ForkTrustStrategy,
    pub trusted_fork_repositories: Vec<String>,
    pub jenkinsfile_path: String,
    pub child_configuration_policy_sha256: [u8; 32],
    pub orphan_policy: OrphanPolicy,
    pub authorization_generation: i64,
    pub authorization_policy_sha256: [u8; 32],
    pub trigger_id: u128,
    pub trigger_generation: i64,
    pub trigger_configuration_sha256: [u8; 32],
    pub source_implementation_sha256: [u8; 32],
    pub source_protocol_version: String,
    pub source_configuration_sha256: [u8; 32],
    pub restored_from_generation: Option<i64>,
    pub actor_subject: String,
    pub reason: String,
    pub idempotency_key: String,
    pub audit_sequence: i64,
    pub audit_event_hash: [u8; 32],
}

/// One ref a provider reported for a parent.
#[derive(Clone, Debug, PartialEq, Eq)]
pub struct DiscoveryObservationWrite {
    pub child_key: String,
    pub child_pipeline_id: u128,
    pub repository_identity: String,
    pub ref_kind: DiscoveredRefKind,
    pub ref_name: String,
    pub pull_request_number: Option<i64>,
    pub head_repository_identity: String,
    pub present: bool,
    pub revision: String,
    pub provenance_sha256: [u8; 32],
    pub jenkinsfile_path: String,
    pub jenkinsfile_sha256: [u8; 32],
    pub child_configuration_sha256: [u8; 32],
}

/// One provider scan of a parent.
#[derive(Clone, Debug, PartialEq, Eq)]
pub struct DiscoveryScanWrite {
    pub organization_id: u128,
    pub project_id: u128,
    pub pipeline_id: u128,
    pub parent_id: u128,
    pub expected_parent_generation: i64,
    pub scan_id: String,
    pub source: DiscoveryScanSource,
    pub source_event_id: Option<String>,
    pub source_cursor: i64,
    pub complete_snapshot: bool,
    pub provider_snapshot_sha256: [u8; 32],
    pub observations: Vec<DiscoveryObservationWrite>,
    pub expected_request_sha256: [u8; 32],
    pub actor_subject: String,
}

pub open spec fn supported_provider(p: Seq<char>) -> bool {
    p == "github"@ || p == "gitlab"@ || p == "bitbucket"@ || p == "gitea"@
}

pub open spec fn path_check(p: Seq<char>) -> Option<Seq<char>> {
    if normalized_relative_path(p) {
        None
    } else {
        Some("Jenkinsfile path must be a normalized relative path"@)
    }
}

pub open spec fn when(condition: bool, message: Seq<char>) -> Option<Seq<char>> {
    if condition {
        Some(message)
    } else {
        None
    }
}

/// Why a parent write is refused before anything is read from the store,
/// by the first rule it breaks.
pub open spec fn parent_write_rejection(input: DiscoveryParentWrite) -> Option<Seq<char>> {
    if input.expected_generation < 0 || input.authorization_generation <= 0 || input.trigger_generation <= 0 {
        Some("discovery generation bindings are invalid"@)
    } else {
        first_of(digest_check("implementation"@, input.implementation_sha256@),
        first_of(digest_check("configuration"@, input.expected_configuration_sha256@),
        first_of(digest_check("child policy"@, input.child_configuration_policy_sha256@),
        first_of(digest_check("authorization policy"@, input.authorization_policy_sha256@),
        first_of(digest_check("trigger configuration"@, input.trigger_configuration_sha256@),
        first_of(digest_check("source implementation"@, input.source_implementation_sha256@),
        first_of(digest_check("source configuration"@, input.source_configuration_sha256@),
        first_of(text_check("protocol version"@, input.protocol_version@, 128),
        first_of(text_check("source protocol version"@, input.source_protocol_version@, 128),
        first_of(text_check("provider identity"@, input.provider_identity@, MAX_TEXT_BYTES as nat),
        first_of(when(!supported_provider(input.provider@), "discovery provider is unsupported"@),
        first_of(match input.organization_identity {
            Some(v) => text_check("organization identity"@, v@, MAX_TEXT_BYTES as nat),
            None => None,
        },
        first_of(text_check("Jenkinsfile path"@, input.jenkinsfile_path@, MAX_PATH_BYTES as nat),
        first_of(path_check(input.jenkinsfile_path@),
        first_of(text_check("actor subject"@, input.actor_subject@, MAX_TEXT_BYTES as nat),
        first_of(text_check("reason"@, input.reason@, MAX_REASON_BYTES as nat),
        first_of(text_check("idempotency key"@, input.idempotency_key@, 256),
        first_of(string_set_rejection("repositories"@, views(input.repositories@)),
        first_of(string_set_rejection("branch includes"@, views(input.branch_includes@)),
        first_of(string_set_rejection("branch excludes"@, views(input.branch_excludes@)),
        first_of(string_set_rejection("trusted fork repositories"@, views(input.trusted_fork_repositories@)),
        first_of(when(input.repositories@.len() == 0, "discovery repository set must be non-empty"@),
        first_of(when(
            input.kind == DiscoveryParentKind::OrganizationFolder && input.organization_identity is None,
            "organization-folder discovery requires an organization identity"@,
        ),
        first_of(when(
            input.fork_trust_strategy != ForkTrustStrategy::NamedRepositories
                && input.trusted_fork_repositories@.len() > 0,
            "named trusted forks require the named-repositories trust strategy"@,
        ),
        when(
            input.fork_trust_strategy == ForkTrustStrategy::NamedRepositories
                && input.trusted_fork_repositories@.len() == 0,
            "named-repositories trust strategy requires at least one repository"@,
        )))))))))))))))))))))))))
    }
}

/// Checks a parent write against every rule that needs nothing from the
/// store, in a fixed order, and reports the first one it breaks.
#[verifier::rlimit(40)]
pub fn validate_parent_write(input: &DiscoveryParentWrite) -> (r: Result<(), StoreError>)
    ensures
        refused_with(r, parent_write_rejection(*input)),
{
    if input.expected_generation < 0 || input.authorization_generation <= 0 || input.trigger_generation <= 0 {
        return invalid("discovery generation bindings are invalid");
    }
    if let Err(e) = validate_digest("implementation", input.implementation_sha256) {
        return Err(e);
    }
    if let Err(e) = validate_digest("configuration", input.expected_configuration_sha256) {
        return Err(e);
    }
    if let Err(e) = validate_digest("child policy", input.child_configuration_policy_sha256) {
        return Err(e);
    }
    if let Err(e) = validate_digest("authorization policy", input.authorization_policy_sha256) {
        return Err(e);
    }
    if let Err(e) = validate_digest("trigger configuration", input.trigger_configuration_sha256) {
        return Err(e);
    }
    if let Err(e) = validate_digest("source implementation", input.source_implementation_sha256) {
        return Err(e);
    }
    if let Err(e) = validate_digest("source configuration", input.source_configuration_sha256) {
        return Err(e);
    }
    if let Err(e) = validate_text("protocol version", input.protocol_version.as_str(), 128) {
        return Err(e);
    }
    if let Err(e) = validate_text("source protocol version", input.source_protocol_version.as_str(), 128) {
        return Err(e);
    }
    if let Err(e) = validate_text("provider identity", input.provider_identity.as_str(), MAX_TEXT_BYTES) {
        return Err(e);
    }
    let provider = input.provider.as_str();
    if !(str_eq(provider, "github") || str_eq(provider, "gitlab") || str_eq(provider, "bitbucket") || str_eq(
        provider,
        "gitea",
    )) {
        return invalid("discovery provider is unsupported");
    }
    if let Some(value) = &input.organization_identity {
        if let Err(e) = validate_text("organization identity", value.as_str(), MAX_TEXT_BYTES) {
            return Err(e);
        }
    }
    if let Err(e) = validate_text("Jenkinsfile path", input.jenkinsfile_path.as_str(), MAX_PATH_BYTES) {
        return Err(e);
    }
    if let Err(e) = validate_relative_path(input.jenkinsfile_path.as_str()) {
        return Err(e);
    }
    if let Err(e) = validate_text("actor subject", input.actor_subject.as_str(), MAX_TEXT_BYTES) {
        return Err(e);
    }
    if let Err(e) = validate_text("reason", input.reason.as_str(), MAX_REASON_BYTES) {
        return Err(e);
    }
    if let Err(e) = validate_text("idempotency key", input.idempotency_key.as_str(), 256) {
        return Err(e);
    }
    if let Err(e) = validate_string_set("repositories", &input.repositories) {
        return Err(e);
    }
    if let Err(e) = validate_string_set("branch includes", &input.branch_includes) {
        return Err(e);
    }
    if let Err(e) = validate_string_set("branch excludes", &input.branch_excludes) {
        return Err(e);
    }
    if let Err(e) = validate_string_set("trusted fork repositories", &input.trusted_fork_repositories) {
        return Err(e);
    }
    if input.repositories.len() == 0 {
        return invalid("discovery repository set must be non-empty");
    }
    if input.kind == DiscoveryParentKind::OrganizationFolder && input.organization_identity.is_none() {
        return invalid("organization-folder discovery requires an organization identity");
    }
    if input.fork_trust_strategy != ForkTrustStrategy::NamedRepositories && input.trusted_fork_repositories.len()
        > 0 {
        return invalid("named trusted forks require the named-repositories trust strategy");
    }
    if input.fork_trust_strategy == ForkTrustStrategy::NamedRepositories && input.trusted_fork_repositories.len()
        == 0 {
        return invalid("named-repositories trust strategy requires at least one repository");
    }
    Ok(())
}

pub open spec fn is_hex_byte(b: u8) -> bool {
    (0x30 <= b && b <= 0x39) || (0x41 <= b && b <= 0x46) || (0x61 <= b && b <= 0x66)
}

/// A 7 to 128 character hexadecimal object identity, by its bytes.
pub open spec fn revision_ok(r: Seq<char>) -> bool {
    let bytes = vstd::utf8::encode_utf8(r);
    bytes.len() >= 7 && forall|i: int| 0 <= i < bytes.len() ==> is_hex_byte(#[trigger] bytes[i])
}

fn revision_is_hex(value: &str) -> (r: bool)
    ensures
        r == revision_ok(value@),
{
    let bytes = bytes_of(value);
    if bytes.len() < 7 {
        return false;
    }
    let mut i: usize = 0;
    while i < bytes.len()
        invariant
            i <= bytes@.len(),
            bytes@ == vstd::utf8::encode_utf8(value@),
            forall|j: int| 0 <= j < i ==> is_hex_byte(#[trigger] bytes@[j]),
        decreases bytes@.len() - i,
    {
        let b = bytes[i];
        if !((0x30 <= b && b <= 0x39) || (0x41 <= b && b <= 0x46) || (0x61 <= b && b <= 0x66)) {
            assert(!is_hex_byte(bytes@[i as int]));
            return false;
        }
        i = i + 1;
    }
    true
}

/// A branch has no pull-request number; a pull request has a positive one.
pub open spec fn ref_identity_consistent(o: DiscoveryObservationWrite) -> bool {
    match o.ref_kind {
        DiscoveredRefKind::Branch => o.pull_request_number is None,
        DiscoveredRefKind::PullRequest => match o.pull_request_number {
            Some(v) => v > 0,
            None => false,
        },
    }
}

/// Why a single observation is refused, by the first rule it breaks.
pub open spec fn observation_rejection(o: DiscoveryObservationWrite) -> Option<Seq<char>> {
    first_of(text_check("child key"@, o.child_key@, MAX_PATH_BYTES as nat),
    first_of(text_check("repository identity"@, o.repository_identity@, MAX_TEXT_BYTES as nat),
    first_of(text_check("ref name"@, o.ref_name@, MAX_TEXT_BYTES as nat),
    first_of(text_check("head repository identity"@, o.head_repository_identity@, MAX_TEXT_BYTES as nat),
    first_of(text_check("revision"@, o.revision@, 128),
    first_of(when(!revision_ok(o.revision@), "discovered revision must be a 7-128 character hexadecimal object identity"@),
    first_of(text_check("Jenkinsfile path"@, o.jenkinsfile_path@, MAX_PATH_BYTES as nat),
    first_of(path_check(o.jenkinsfile_path@),
    first_of(digest_check("provenance"@, o.provenance_sha256@),
    first_of(digest_check("Jenkinsfile"@, o.jenkinsfile_sha256@),
    first_of(digest_check("child configuration"@, o.child_configuration_sha256@),
    when(
        !ref_identity_consistent(o),
        "branch and pull-request identities are inconsistent"@,
    ))))))))))))
}

pub fn validate_observation(input: &DiscoveryObservationWrite) -> (r: Result<(), StoreError>)
    ensures
        refused_with(r, observation_rejection(*input)),
{
    if let Err(e) = validate_text("child key", input.child_key.as_str(), MAX_PATH_BYTES) {
        return Err(e);
    }
    if let Err(e) = validate_text("repository identity", input.repository_identity.as_str(), MAX_TEXT_BYTES) {
        return Err(e);
    }
    if let Err(e) = validate_text("ref name", input.ref_name.as_str(), MAX_TEXT_BYTES) {
        return Err(e);
    }
    if let Err(e) = validate_text("head repository identity", input.head_repository_identity.as_str(), MAX_TEXT_BYTES) {
        return Err(e);
    }
    if let Err(e) = validate_text("revision", input.revision.as_str(), 128) {
        return Err(e);
    }
    if !revision_is_hex(input.revision.as_str()) {
        return invalid("discovered revision must be a 7-128 character hexadecimal object identity");
    }
    if let Err(e) = validate_text("Jenkinsfile path", input.jenkinsfile_path.as_str(), MAX_PATH_BYTES) {
        return Err(e);
    }
    if let Err(e) = validate_relative_path(input.jenkinsfile_path.as_str()) {
        return Err(e);
    }
    if let Err(e) = validate_digest("provenance", input.provenance_sha256) {
        return Err(e);
    }
    if let Err(e) = validate_digest("Jenkinsfile", input.jenkinsfile_sha256) {
        return Err(e);
    }
    if let Err(e) = validate_digest("child configuration", input.child_configuration_sha256) {
        return Err(e);
    }
    let consistent = match (input.ref_kind, input.pull_request_number) {
        (DiscoveredRefKind::Branch, None) => true,
        (DiscoveredRefKind::PullRequest, Some(value)) => value > 0,
        _ => false,
    };
    if !consistent {
        return invalid("branch and pull-request identities are inconsistent");
    }
    Ok(())
}

/// Some earlier observation has the same child key or child pipeline.
pub open spec fn repeats_child(os: Seq<DiscoveryObservationWrite>, i: int) -> bool {
    exists|j: int|
        0 <= j < i && ((#[trigger] os[j]).child_key@ == os[i].child_key@ || os[j].child_pipeline_id
            == os[i].child_pipeline_id)
}

/// The rejection of the first observation, in order, that has one.
pub open spec fn first_observation_rejection(os: Seq<DiscoveryObservationWrite>) -> Option<Seq<char>>
    decreases os.len(),
{
    if os.len() == 0 {
        None
    } else {
        let earlier = first_observation_rejection(os.drop_last());
        if earlier is Some {
            earlier
        } else if observation_rejection(os.last()) is Some {
            observation_rejection(os.last())
        } else {
            when(repeats_child(os, os.len() - 1), "discovery scan repeats a child identity"@)
        }
    }
}

/// A webhook scan is a delta with its event; a periodic or recovery scan
/// is a complete snapshot with none.
pub open spec fn scan_source_consistent(input: DiscoveryScanWrite) -> bool {
    match input.source {
        DiscoveryScanSource::Webhook => input.source_event_id is Some && !input.complete_snapshot,
        _ => input.source_event_id is None && input.complete_snapshot,
    }
}

/// Why a scan is refused before anything is read from the store.
pub open spec fn scan_rejection(input: DiscoveryScanWrite) -> Option<Seq<char>> {
    first_of(when(
        input.expected_parent_generation <= 0 || input.source_cursor <= 0,
        "discovery scan generation and cursor must be positive"@,
    ),
    first_of(text_check("scan id"@, input.scan_id@, MAX_TEXT_BYTES as nat),
    first_of(text_check("actor subject"@, input.actor_subject@, MAX_TEXT_BYTES as nat),
    first_of(digest_check("provider snapshot"@, input.provider_snapshot_sha256@),
    first_of(digest_check("request"@, input.expected_request_sha256@),
    first_of(when(
        !scan_source_consistent(input),
        "webhook scans must be deltas with an event; periodic/recovery scans must be complete snapshots"@,
    ),
    first_of(match input.source_event_id {
        Some(v) => text_check("source event id"@, v@, MAX_TEXT_BYTES as nat),
        None => None,
    },
    first_of(when(input.observations@.len() > MAX_SET_ITEMS, "discovery scan exceeds the observation bound"@),
    first_observation_rejection(input.observations@)))))))))
}

proof fn lemma_first_observation_prefix(os: Seq<DiscoveryObservationWrite>, n: int)
    requires
        0 <= n <= os.len(),
        first_observation_rejection(os.take(n)) is Some,
    ensures
        first_observation_rejection(os) == first_observation_rejection(os.take(n)),
    decreases os.len() - n,
{
    if n < os.len() {
        assert(os.take(n + 1).drop_last() =~= os.take(n));
        lemma_first_observation_prefix(os, n + 1);
    } else {
        assert(os.take(n) =~= os);
    }
}

proof fn lemma_repeats_child_prefix(os: Seq<DiscoveryObservationWrite>, i: int)
    requires
        0 <= i < os.len(),
    ensures
        repeats_child(os.take(i + 1), i) == repeats_child(os, i),
{
    let t = os.take(i + 1);
    if repeats_child(os, i) {
        let j = choose|j: int|
            0 <= j < i && ((#[trigger] os[j]).child_key@ == os[i].child_key@ || os[j].child_pipeline_id
                == os[i].child_pipeline_id);
        assert(t[j] == os[j]);
    }
    if repeats_child(t, i) {
        let j = choose|j: int|
            0 <= j < i && ((#[trigger] t[j]).child_key@ == t[i].child_key@ || t[j].child_pipeline_id
                == t[i].child_pipeline_id);
        assert(t[j] == os[j]);
    }
}

/// Checks a scan against every rule that needs nothing from the store, in
/// a fixed order, and reports the first one it breaks.
pub fn validate_scan(input: &DiscoveryScanWrite) -> (r: Result<(), StoreError>)
    ensures
        refused_with(r, scan_rejection(*input)),
{
    if input.expected_parent_generation <= 0 || input.source_cursor <= 0 {
        return invalid("discovery scan generation and cursor must be positive");
    }
    if let Err(e) = validate_text("scan id", input.scan_id.as_str(), MAX_TEXT_BYTES) {
        return Err(e);
    }
    if let Err(e) = validate_text("actor subject", input.actor_subject.as_str(), MAX_TEXT_BYTES) {
        return Err(e);
    }
    if let Err(e) = validate_digest("provider snapshot", input.provider_snapshot_sha256) {
        return Err(e);
    }
    if let Err(e) = validate_digest("request", input.expected_request_sha256) {
        return Err(e);
    }
    let consistent = match input.source {
        DiscoveryScanSource::Webhook => input.source_event_id.is_some() && !input.complete_snapshot,
        _ => input.source_event_id.is_none() && input.complete_snapshot,
    };
    if !consistent {
        return invalid(
            "webhook scans must be deltas with an event; periodic/recovery scans must be complete snapshots",
        );
    }
    if let Some(event_id) = &input.source_event_id {
        if let Err(e) = validate_text("source event id", event_id.as_str(), MAX_TEXT_BYTES) {
            return Err(e);
        }
    }
    if input.observations.len() > MAX_SET_ITEMS {
        return invalid("discovery scan exceeds the observation bound");
    }
    let os = &input.observations;
    let mut i: usize = 0;
    assert(os@.take(0) =~= Seq::<DiscoveryObservationWrite>::empty());
    while i < os.len()
        invariant
            i <= os@.len(),
            os@ == input.observations@,
            scan_rejection(*input) == first_observation_rejection(os@),
            first_observation_rejection(os@.take(i as int)) is None,
        decreases os@.len() - i,
    {
        proof {
            assert(os@.take(i + 1).drop_last() =~= os@.take(i as int));
            assert(os@.take(i + 1).last() == os@[i as int]);
            lemma_repeats_child_prefix(os@, i as int);
        }
        if let Err(e) = validate_observation(&os[i]) {
            proof {
                lemma_first_observation_prefix(os@, i + 1);
            }
            return Err(e);
        }
        let mut repeated = false;
        let mut j: usize = 0;
        while j < i
            invariant
                i < os@.len(),
                j <= i,
                repeated == exists|k: int|
                    0 <= k < j && ((#[trigger] os@[k]).child_key@ == os@[i as int].child_key@
                        || os@[k].child_pipeline_id == os@[i as int].child_pipeline_id),
            decreases i - j,
        {
            if str_eq(os[j].child_key.as_str(), os[i].child_key.as_str()) || os[j].child_pipeline_id
                == os[i].child_pipeline_id {
                repeated = true;
            }
            j = j + 1;
        }
        if repeated {
            proof {
                lemma_first_observation_prefix(os@, i + 1);
            }
            return invalid("discovery scan repeats a child identity");
        }
        i = i + 1;
    }
    assert(os@.take(os@.len() as int) =~= os@);
    Ok(())
}

/// `s` is one of the listed strings.
pub open spec fn listed(vs: Seq<String>, s: Seq<char>) -> bool {
    exists|i: int| 0 <= i < vs.len() && (#[trigger] vs[i])@ == s
}

fn is_listed(vs: &Vec<String>, s: &str) -> (r: bool)
    ensures
        r == listed(vs@, s@),
{
    let mut i: usize = 0;
    while i < vs.len()
        invariant
            i <= vs@.len(),
            forall|j: int| 0 <= j < i ==> (#[trigger] vs@[j])@ != s@,
        decreases vs@.len() - i,
    {
        if str_eq(vs[i].as_str(), s) {
            return true;
        }
        i = i + 1;
    }
    false
}

/// Some listed string is a prefix of `name`.
pub open spec fn some_prefix(prefixes: Seq<String>, name: Seq<char>) -> bool {
    exists|i: int| 0 <= i < prefixes.len() && starts_with(name, (#[trigger] prefixes[i])@)
}

fn has_prefix_in(prefixes: &Vec<String>, name: &str) -> (r: bool)
    ensures
        r == some_prefix(prefixes@, name@),
{
    let mut i: usize = 0;
    while i < prefixes.len()
        invariant
            i <= prefixes@.len(),
            forall|j: int| 0 <= j < i ==> !starts_with(name@, (#[trigger] prefixes@[j])@),
        decreases prefixes@.len() - i,
    {
        if str_starts_with(name, prefixes[i].as_str()) {
            return true;
        }
        i = i + 1;
    }
    false
}

/// A ref name is discovered when some include prefix matches (or there are
/// none) and no exclude prefix does.
pub open spec fn branch_filters_match(parent: DiscoveryParent, name: Seq<char>) -> bool {
    (parent.branch_includes@.len() == 0 || some_prefix(parent.branch_includes@, name)) && !some_prefix(
        parent.branch_excludes@,
        name,
    )
}

pub fn matches_branch_filters(parent: &DiscoveryParent, name: &str) -> (r: bool)
    ensures
        r == branch_filters_match(*parent, name@),
{
    let included = parent.branch_includes.len() == 0 || has_prefix_in(&parent.branch_includes, name);
    let excluded = has_prefix_in(&parent.branch_excludes, name);
    included && !excluded
}

/// The ref's head lives in another repository than the one discovered.
pub open spec fn is_fork(o: DiscoveryObservationWrite) -> bool {
    o.head_repository_identity@ != o.repository_identity@
}

/// A branch observation that names a fork head, which discovery refuses.
pub open spec fn substitutes_fork(o: DiscoveryObservationWrite) -> bool {
    o.ref_kind == DiscoveredRefKind::Branch && is_fork(o)
}

/// The parent selects the ref: its repository is configured, its name
/// passes the branch filters, its Jenkinsfile is the configured one, and a
/// pull request is one the pull-request strategy admits.
pub open spec fn selected(parent: DiscoveryParent, o: DiscoveryObservationWrite) -> bool {
    &&& listed(parent.repositories@, o.repository_identity@)
    &&& branch_filters_match(parent, o.ref_name@)
    &&& o.jenkinsfile_path@ == parent.jenkinsfile_path@
    &&& o.ref_kind == DiscoveredRefKind::PullRequest ==> match parent.pull_request_strategy {
        PullRequestDiscoveryStrategy::NoPullRequests => false,
        PullRequestDiscoveryStrategy::OriginOnly => !is_fork(o),
        PullRequestDiscoveryStrategy::OriginAndForks => true,
    }
}

/// A selected ref is trusted when it is not from a fork or the fork trust
/// strategy admits its head repository.
pub open spec fn trusted_head(parent: DiscoveryParent, o: DiscoveryObservationWrite) -> bool {
    !is_fork(o) || match parent.fork_trust_strategy {
        ForkTrustStrategy::NoForks => false,
        ForkTrustStrategy::NamedRepositories => listed(parent.trusted_fork_repositories@, o.head_repository_identity@),
        ForkTrustStrategy::All => true,
    }
}

/// How a parent classifies one observed ref: whether it is trusted, and
/// its disposition.
pub open spec fn classification(parent: DiscoveryParent, o: DiscoveryObservationWrite) -> (bool, DiscoveryObservationDisposition) {
    if !selected(parent, o) {
        (false, DiscoveryObservationDisposition::Filtered)
    } else {
        let trusted = trusted_head(parent, o);
        (
            trusted,
            if !o.present {
                DiscoveryObservationDisposition::Absent
            } else if trusted {
                DiscoveryObservationDisposition::Active
            } else {
                DiscoveryObservationDisposition::Quarantined
            },
        )
    }
}

fn classify(parent: &DiscoveryParent, o: &DiscoveryObservationWrite) -> (r: (bool, DiscoveryObservationDisposition))
    ensures
        r == classification(*parent, *o),
{
    let fork = !str_eq(o.head_repository_identity.as_str(), o.repository_identity.as_str());
    if !is_listed(&parent.repositories, o.repository_identity.as_str()) || !matches_branch_filters(
        parent,
        o.ref_name.as_str(),
    ) || !str_eq(o.jenkinsfile_path.as_str(), parent.jenkinsfile_path.as_str()) {
        return (false, DiscoveryObservationDisposition::Filtered);
    }
    if o.ref_kind == DiscoveredRefKind::PullRequest {
        match parent.pull_request_strategy {
            PullRequestDiscoveryStrategy::NoPullRequests => {
                return (false, DiscoveryObservationDisposition::Filtered);
            },
            PullRequestDiscoveryStrategy::OriginOnly => {
                if fork {
                    return (false, DiscoveryObservationDisposition::Filtered);
                }
            },
            PullRequestDiscoveryStrategy::OriginAndForks => {},
        }
    }
    let trusted = !fork || match parent.fork_trust_strategy {
        ForkTrustStrategy::NoForks => false,
        ForkTrustStrategy::NamedRepositories => is_listed(
            &parent.trusted_fork_repositories,
            o.head_repository_identity.as_str(),
        ),
        ForkTrustStrategy::All => true,
    };
    let disposition = if !o.present {
        DiscoveryObservationDisposition::Absent
    } else if trusted {
        DiscoveryObservationDisposition::Active
    } else {
        DiscoveryObservationDisposition::Quarantined
    };
    (trusted, disposition)
}

/// Classifies every observed ref of a scan against its parent, in order;
/// a branch whose head is a fork refuses the whole scan.
pub fn evaluate_observations(parent: &DiscoveryParent, observations: &Vec<DiscoveryObservationWrite>) -> (r: Result<
    Vec<(bool, DiscoveryObservationDisposition)>,
    StoreError,
>)
    ensures
        r is Err <==> exists|i: int| 0 <= i < observations@.len() && substitutes_fork(#[trigger] observations@[i]),
        r matches Err(e) ==> e matches StoreError::InvalidDiscovery(m) && m@
            == "branch observation cannot substitute a fork head repository"@,
        r matches Ok(v) ==> v@.len() == observations@.len() && forall|i: int|
            0 <= i < v@.len() ==> #[trigger] v@[i] == classification(*parent, observations@[i]),
{
    let mut evaluated: Vec<(bool, DiscoveryObservationDisposition)> = Vec::new();
    let mut i: usize = 0;
    while i < observations.len()
        invariant
            i <= observations@.len(),
            evaluated@.len() == i,
            forall|j: int| 0 <= j < i ==> !substitutes_fork(#[trigger] observations@[j]),
            forall|j: int| 0 <= j < i ==> #[trigger] evaluated@[j] == classification(*parent, observations@[j]),
        decreases observations@.len() - i,
    {
        let o = &observations[i];
        let fork = !str_eq(o.head_repository_identity.as_str(), o.repository_identity.as_str());
        if o.ref_kind == DiscoveredRefKind::Branch && fork {
            return Err(
                StoreError::InvalidDiscovery("branch observation cannot substitute a fork head repository".to_owned()),
            );
        }
        evaluated.push(classify(parent, o));
        i = i + 1;
    }
    Ok(evaluated)
}

/// Only a present, selected and trusted ref becomes active.
pub proof fn law_active_refs_are_selected_trusted_and_present(parent: DiscoveryParent, o: DiscoveryObservationWrite)
    requires
        classification(parent, o).1 == DiscoveryObservationDisposition::Active,
    ensures
        selected(parent, o),
        trusted_head(parent, o),
        classification(parent, o).0,
        o.present,
{
}

/// A ref the parent does not select is filtered and never trusted.
pub proof fn law_unselected_refs_are_filtered_untrusted(parent: DiscoveryParent, o: DiscoveryObservationWrite)
    requires
        !selected(parent, o),
    ensures
        classification(parent, o) == (false, DiscoveryObservationDisposition::Filtered),
{
}

/// Under the no-forks trust strategy a present, selected fork ref is
/// quarantined, never active.
pub proof fn law_untrusted_forks_are_quarantined(parent: DiscoveryParent, o: DiscoveryObservationWrite)
    requires
        parent.fork_trust_strategy == ForkTrustStrategy::NoForks,
        selected(parent, o),
        is_fork(o),
        o.present,
    ensures
        classification(parent, o) == (false, DiscoveryObservationDisposition::Quarantined),
{
}

/// Under the origin-only pull-request strategy a pull request whose head
/// lives in another repository than the one discovered is filtered and
/// never trusted.
pub proof fn law_origin_only_filters_fork_pull_requests(parent: DiscoveryParent, o: DiscoveryObservationWrite)
    requires
        parent.pull_request_strategy == PullRequestDiscoveryStrategy::OriginOnly,
        o.ref_kind == DiscoveredRefKind::PullRequest,
        o.head_repository_identity@ != o.repository_identity@,
    ensures
        classification(parent, o) == (false, DiscoveryObservationDisposition::Filtered),
{
}

/// A present ref the parent selects whose head lives in the discovered
/// repository itself is trusted and active.
pub proof fn law_selected_origin_refs_are_active(parent: DiscoveryParent, o: DiscoveryObservationWrite)
    requires
        selected(parent, o),
        o.head_repository_identity@ == o.repository_identity@,
        o.present,
    ensures
        classification(parent, o) == (true, DiscoveryObservationDisposition::Active),
{
}

/// Under the named-repositories trust strategy a present, selected fork
/// ref whose head repository is one of the trusted forks is trusted and
/// active.
pub proof fn law_named_trusted_forks_are_active(parent: DiscoveryParent, o: DiscoveryObservationWrite, j: int)
    requires
        parent.fork_trust_strategy == ForkTrustStrategy::NamedRepositories,
        selected(parent, o),
        o.present,
        0 <= j < parent.trusted_fork_repositories@.len(),
        parent.trusted_fork_repositories@[j]@ == o.head_repository_identity@,
    ensures
        classification(parent, o) == (true, DiscoveryObservationDisposition::Active),
{
    assert(listed(parent.trusted_fork_repositories@, o.head_repository_identity@));
}

/// Under the no-pull-requests strategy every pull request is filtered and
/// never trusted.
pub proof fn law_no_pull_requests_filters_every_pull_request(parent: DiscoveryParent, o: DiscoveryObservationWrite)
    requires
        parent.pull_request_strategy == PullRequestDiscoveryStrategy::NoPullRequests,
        o.ref_kind == DiscoveredRefKind::PullRequest,
    ensures
        classification(parent, o) == (false, DiscoveryObservationDisposition::Filtered),
{
}

/// An excluded ref name is never discovered, whatever the includes say.
pub proof fn law_excludes_override_includes(parent: DiscoveryParent, name: Seq<char>, i: int)
    requires
        0 <= i < parent.branch_excludes@.len(),
        starts_with(name, parent.branch_excludes@[i]@),
    ensures
        !branch_filters_match(parent, name),
{
}

pub open spec fn texts_equal(a: Seq<String>, b: Seq<String>) -> bool {
    views(a) == views(b)
}

pub(crate) fn strings_eq(a: &Vec<String>, b: &Vec<String>) -> (r: bool)
    ensures
        r == texts_equal(a@, b@),
{
    if a.len() != b.len() {
        assert(views(a@).len() != views(b@).len());
        return false;
    }
    let mut i: usize = 0;
    while i < a.len()
        invariant
            i <= a@.len(),
            a@.len() == b@.len(),
            forall|j: int| 0 <= j < i ==> (#[trigger] a@[j])@ == b@[j]@,
        decreases a@.len() - i,
    {
        if !str_eq(a[i].as_str(), b[i].as_str()) {
            assert(views(a@)[i as int] != views(b@)[i as int]);
            return false;
        }
        i = i + 1;
    }
    assert(views(a@) =~= views(b@));
    true
}

pub open spec fn opt_text_eq(a: Option<String>, b: Option<String>) -> bool {
    match (a, b) {
        (Some(x), Some(y)) => x@ == y@,
        (None, None) => true,
        _ => false,
    }
}

fn opt_str_eq(a: &Option<String>, b: &Option<String>) -> (r: bool)
    ensures
        r == opt_text_eq(*a, *b),
{
    match (a, b) {
        (Some(x), Some(y)) => str_eq(x.as_str(), y.as_str()),
        (None, None) => true,
        _ => false,
    }
}

/// Two stored generations configure the same discovery behavior: they may
/// differ only in state, identity of the generation, and bookkeeping.
pub open spec fn same_behavior(l: DiscoveryParent, r: DiscoveryParent) -> bool {
    &&& l.kind == r.kind
    &&& l.implementation_sha256@ == r.implementation_sha256@
    &&& l.protocol_version@ == r.protocol_version@
    &&& l.provider@ == r.provider@
    &&& l.provider_identity@ == r.provider_identity@
    &&& opt_text_eq(l.organization_identity, r.organization_identity)
    &&& texts_equal(l.repositories@, r.repositories@)
    &&& texts_equal(l.branch_includes@, r.branch_includes@)
    &&& texts_equal(l.branch_excludes@, r.branch_excludes@)
    &&& l.pull_request_strategy == r.pull_request_strategy
    &&& l.fork_trust_strategy == r.fork_trust_strategy
    &&& texts_equal(l.trusted_fork_repositories@, r.trusted_fork_repositories@)
    &&& l.jenkinsfile_path@ == r.jenkinsfile_path@
    &&& l.child_configuration_policy_sha256@ == r.child_configuration_policy_sha256@
    &&& l.orphan_policy == r.orphan_policy
    &&& l.authorization_generation == r.authorization_generation
    &&& l.authorization_policy_sha256@ == r.authorization_policy_sha256@
    &&& l.trigger_id == r.trigger_id
    &&& l.trigger_generation == r.trigger_generation
    &&& l.trigger_configuration_sha256@ == r.trigger_configuration_sha256@
    &&& l.source_implementation_sha256@ == r.source_implementation_sha256@
    &&& l.source_protocol_version@ == r.source_protocol_version@
    &&& l.source_configuration_sha256@ == r.source_configuration_sha256@
    &&& l.restored_from_generation == r.restored_from_generation
}

pub fn same_parent_behavior(left: &DiscoveryParent, right: &DiscoveryParent) -> (r: bool)
    ensures
        r == same_behavior(*left, *right),
{
    left.kind == right.kind && digest_eq(&left.implementation_sha256, &right.implementation_sha256) && str_eq(
        left.protocol_version.as_str(),
        right.protocol_version.as_str(),
    ) && str_eq(left.provider.as_str(), right.provider.as_str()) && str_eq(
        left.provider_identity.as_str(),
        right.provider_identity.as_str(),
    ) && opt_str_eq(&left.organization_identity, &right.organization_identity) && strings_eq(
        &left.repositories,
        &right.repositories,
    ) && strings_eq(&left.branch_includes, &right.branch_includes) && strings_eq(
        &left.branch_excludes,
        &right.branch_excludes,
    ) && left.pull_request_strategy == right.pull_request_strategy && left.fork_trust_strategy
        == right.fork_trust_strategy && strings_eq(&left.trusted_fork_repositories, &right.trusted_fork_repositories)
        && str_eq(left.jenkinsfile_path.as_str(), right.jenkinsfile_path.as_str()) && digest_eq(
        &left.child_configuration_policy_sha256,
        &right.child_configuration_policy_sha256,
    ) && left.orphan_policy == right.orphan_policy && left.authorization_generation == right.authorization_generation
        && digest_eq(&left.authorization_policy_sha256, &right.authorization_policy_sha256) && left.trigger_id
        == right.trigger_id && left.trigger_generation == right.trigger_generation && digest_eq(
        &left.trigger_configuration_sha256,
        &right.trigger_configuration_sha256,
    ) && digest_eq(&left.source_implementation_sha256, &right.source_implementation_sha256) && str_eq(
        left.source_protocol_version.as_str(),
        right.source_protocol_version.as_str(),
    ) && digest_eq(&left.source_configuration_sha256, &right.source_configuration_sha256)
        && left.restored_from_generation == right.restored_from_generation
}

/// A write configures the same behavior as the stored generation; its
/// string sets are compared in text order, the order they are stored in.
pub open spec fn same_behavior_write(input: DiscoveryParentWrite, current: DiscoveryParent) -> bool {
    &&& input.kind == current.kind
    &&& input.implementation_sha256@ == current.implementation_sha256@
    &&& input.protocol_version@ == current.protocol_version@
    &&& input.provider@ == current.provider@
    &&& input.provider_identity@ == current.provider_identity@
    &&& opt_text_eq(input.organization_identity, current.organization_identity)
    &&& sorted_text(views(input.repositories@)) == views(current.repositories@)
    &&& sorted_text(views(input.branch_includes@)) == views(current.branch_includes@)
    &&& sorted_text(views(input.branch_excludes@)) == views(current.branch_excludes@)
    &&& input.pull_request_strategy == current.pull_request_strategy
    &&& input.fork_trust_strategy == current.fork_trust_strategy
    &&& sorted_text(views(input.trusted_fork_repositories@)) == views(current.trusted_fork_repositories@)
    &&& input.jenkinsfile_path@ == current.jenkinsfile_path@
    &&& input.child_configuration_policy_sha256@ == current.child_configuration_policy_sha256@
    &&& input.orphan_policy == current.orphan_policy
    &&& input.authorization_generation == current.authorization_generation
    &&& input.authorization_policy_sha256@ == current.authorization_policy_sha256@
    &&& input.trigger_id == current.trigger_id
    &&& input.trigger_generation == current.trigger_generation
    &&& input.trigger_configuration_sha256@ == current.trigger_configuration_sha256@
    &&& input.source_implementation_sha256@ == current.source_implementation_sha256@
    &&& input.source_protocol_version@ == current.source_protocol_version@
    &&& input.source_configuration_sha256@ == current.source_configuration_sha256@
    &&& input.restored_from_generation == current.restored_from_generation
}

fn sorted_equals(values: &Vec<String>, stored: &Vec<String>) -> (r: bool)
    ensures
        r == (sorted_text(views(values@)) == views(stored@)),
{
    let sorted = sort_strings(values);
    proof {
        lemma_sorted_is_sorted_text(views(sorted@), views(values@));
    }
    strings_eq(&sorted, stored)
}

pub fn same_parent_behavior_write(input: &DiscoveryParentWrite, current: &DiscoveryParent) -> (r: bool)
    ensures
        r == same_behavior_write(*input, *current),
{
    input.kind == current.kind && digest_eq(&input.implementation_sha256, &current.implementation_sha256) && str_eq(
        input.protocol_version.as_str(),
        current.protocol_version.as_str(),
    ) && str_eq(input.provider.as_str(), current.provider.as_str()) && str_eq(
        input.provider_identity.as_str(),
        current.provider_identity.as_str(),
    ) && opt_str_eq(&input.organization_identity, &current.organization_identity) && sorted_equals(
        &input.repositories,
        &current.repositories,
    ) && sorted_equals(&input.branch_includes, &current.branch_includes) && sorted_equals(
        &input.branch_excludes,
        &current.branch_excludes,
    ) && input.pull_request_strategy == current.pull_request_strategy && input.fork_trust_strategy
        == current.fork_trust_strategy && sorted_equals(
        &input.trusted_fork_repositories,
        &current.trusted_fork_repositories,
    ) && str_eq(input.jenkinsfile_path.as_str(), current.jenkinsfile_path.as_str()) && digest_eq(
        &input.child_configuration_policy_sha256,
        &current.child_configuration_policy_sha256,
    ) && input.orphan_policy == current.orphan_policy && input.authorization_generation
        == current.authorization_generation && digest_eq(
        &input.authorization_policy_sha256,
        &current.authorization_policy_sha256,
    ) && input.trigger_id == current.trigger_id && input.trigger_generation == current.trigger_generation
        && digest_eq(&input.trigger_configuration_sha256, &current.trigger_configuration_sha256) && digest_eq(
        &input.source_implementation_sha256,
        &current.source_implementation_sha256,
    ) && str_eq(input.source_protocol_version.as_str(), current.source_protocol_version.as_str()) && digest_eq(
        &input.source_configuration_sha256,
        &current.source_configuration_sha256,
    ) && input.restored_from_generation == current.restored_from_generation
}

/// What the store already holds for a discovered child: key, pipeline,
/// repository, ref kind name, ref name, pull request, head, and fork flag.
pub type DiscoveryIdentityRecord = (String, u128, String, String, String, Option<i64>, String, bool);

pub fn discovery_identity_matches(
    existing: &DiscoveryIdentityRecord,
    observation: &DiscoveryObservationWrite,
    expected_fork: bool,
) -> (r: bool)
    ensures
        r == (existing.0@ == observation.child_key@ && existing.1 == observation.child_pipeline_id && existing.2@
            == observation.repository_identity@ && existing.3@ == observation.ref_kind.name() && existing.4@
            == observation.ref_name@ && existing.5 == observation.pull_request_number && existing.6@
            == observation.head_repository_identity@ && existing.7 == expected_fork),
{
    str_eq(existing.0.as_str(), observation.child_key.as_str()) && existing.1 == observation.child_pipeline_id
        && str_eq(existing.2.as_str(), observation.repository_identity.as_str()) && str_eq(
        existing.3.as_str(),
        observation.ref_kind.as_str(),
    ) && str_eq(existing.4.as_str(), observation.ref_name.as_str()) && existing.5
        == observation.pull_request_number && str_eq(existing.6.as_str(), observation.head_repository_identity.as_str())
        && existing.7 == expected_fork
}

/// One reconciled scan as the ledger records it.
#[derive(Clone, Debug, PartialEq, Eq)]
pub struct DiscoveryScanRecord {
    pub organization_id: u128,
    pub project_id: u128,
    pub pipeline_id: u128,
    pub parent_id: u128,
    pub parent_generation: i64,
    pub scan_id: String,
    pub source: DiscoveryScanSource,
    pub source_event_id: Option<String>,
    pub source_cursor: i64,
    pub complete_snapshot: bool,
    pub provider_snapshot_sha256: [u8; 32],
    pub request_sha256: [u8; 32],
    pub observation_count: usize,
    pub selected_count: usize,
    pub active_count: usize,
    pub quarantined_count: usize,
    pub retired_count: usize,
    pub actor_subject: String,
    pub audit_sequence: i64,
    pub audit_event_hash: [u8; 32],
}

/// One classified observation as the ledger records it.
#[derive(Clone, Debug, PartialEq, Eq)]
pub struct DiscoveryObservation {
    pub organization_id: u128,
    pub project_id: u128,
    pub pipeline_id: u128,
    pub parent_id: u128,
    pub scan_id: String,
    pub child_key: String,
    pub child_pipeline_id: u128,
    pub repository_identity: String,
    pub ref_kind: DiscoveredRefKind,
    pub ref_name: String,
    pub pull_request_number: Option<i64>,
    pub head_repository_identity: String,
    pub is_fork: bool,
    pub present: bool,
    pub trusted: bool,
    pub authorized: bool,
    pub disposition: DiscoveryObservationDisposition,
    pub revision: String,
    pub provenance_sha256: [u8; 32],
    pub jenkinsfile_path: String,
    pub jenkinsfile_sha256: [u8; 32],
    pub child_configuration_sha256: [u8; 32],
    pub observation_sha256: [u8; 32],
}

/// One discovered child pipeline.
#[derive(Clone, Debug, PartialEq, Eq)]
pub struct DiscoveryChild {
    pub organization_id: u128,
    pub project_id: u128,
    pub pipeline_id: u128,
    pub parent_id: u128,
    pub child_key: String,
    pub child_pipeline_id: u128,
    pub repository_identity: String,
    pub ref_kind: DiscoveredRefKind,
    pub ref_name: String,
    pub pull_request_number: Option<i64>,
    pub head_repository_identity: String,
    pub is_fork: bool,
    pub state: DiscoveryChildState,
    pub state_generation: i64,
    pub revision: String,
    pub provenance_sha256: [u8; 32],
    pub jenkinsfile_path: String,
    pub jenkinsfile_sha256: [u8; 32],
    pub child_configuration_sha256: [u8; 32],
    pub parent_generation: i64,
    pub source_cursor: i64,
    pub last_scan_id: String,
}

/// A quiesced parent's complete discovery state, handed to another
/// controller together with the audit event that exported it.
#[derive(Clone, Debug, PartialEq, Eq)]
pub struct DiscoveryTransferSnapshot {
    pub schema_version: u16,
    pub organization_id: u128,
    pub project_id: u128,
    pub pipeline_id: u128,
    pub parent_id: u128,
    pub current_generation: i64,
    pub versions: Vec<DiscoveryParent>,
    pub scans: Vec<DiscoveryScanRecord>,
    pub observations: Vec<DiscoveryObservation>,
    pub children: Vec<DiscoveryChild>,
    pub ledger_sha256: [u8; 32],
    pub handoff_audit_event: AuditEvent,
    pub audit_sequence: i64,
    pub audit_event_hash: [u8; 32],
    pub state_sha256: [u8; 32],
}

/// The text a JSON document holds under a top-level key, if it is an
/// object with a string there.
pub uninterp spec fn json_field_text(json: Seq<u8>, field: Seq<char>) -> Option<Seq<char>>;

/// Parses the bytes with `serde_json::from_slice` into a
/// `serde_json::Value` and returns the string under `field`, via
/// `Value::get` and `Value::as_str`. What each document yields is left to
/// the name.
#[verifier::external_body]
fn json_text_field(json: &[u8], field: &str) -> (r: Option<String>)
    ensures
        r matches Some(s) ==> json_field_text(json@, field@) == Some(s@),
        r is None ==> json_field_text(json@, field@) is None,
{
    match serde_json::from_slice::<serde_json::Value>(json) {
        Ok(value) => value.get(field).and_then(serde_json::Value::as_str).map(str::to_owned),
        Err(_) => None,
    }
}

/// The refusal `r` carries, as a discovery conflict with message `m`.
pub open spec fn conflicted_with(r: Result<(), StoreError>, rejection: Option<Seq<char>>) -> bool {
    match r {
        Ok(()) => rejection is None,
        Err(StoreError::DiscoveryConflict(m)) => rejection == Some(m@),
        Err(_) => false,
    }
}

fn conflict(message: &str) -> (r: Result<(), StoreError>)
    ensures
        conflicted_with(r, Some(message@)),
{
    Err(StoreError::DiscoveryConflict(message.to_owned()))
}

/// The snapshot is anchored at the independently retained handoff event.
pub open spec fn anchored(s: DiscoveryTransferSnapshot, trusted: Seq<u8>) -> bool {
    &&& s.schema_version == 1
    &&& s.current_generation > 0
    &&& s.audit_sequence > 0
    &&& trusted != zero_digest()
    &&& s.audit_event_hash@ == trusted
    &&& s.handoff_audit_event.sequence == s.audit_sequence
    &&& s.handoff_audit_event.event_hash@ == trusted
}

/// Version `k` belongs to the parent, is generation `k + 1`, and is audited.
pub open spec fn version_ok(s: DiscoveryTransferSnapshot, k: int) -> bool {
    let v = s.versions@[k];
    &&& v.organization_id == s.organization_id
    &&& v.project_id == s.project_id
    &&& v.pipeline_id == s.pipeline_id
    &&& v.parent_id == s.parent_id
    &&& v.generation == k + 1
    &&& v.audit_sequence > 0
    &&& v.audit_event_hash@ != zero_digest()
}

/// Scan `k` belongs to the parent, advances the cursor, has a fresh scan
/// identifier, and is audited.
pub open spec fn scan_ok(s: DiscoveryTransferSnapshot, k: int) -> bool {
    let c = s.scans@[k];
    &&& c.organization_id == s.organization_id
    &&& c.project_id == s.project_id
    &&& c.pipeline_id == s.pipeline_id
    &&& c.parent_id == s.parent_id
    &&& c.source_cursor > (if k == 0 {
        0
    } else {
        s.scans@[k - 1].source_cursor
    })
    &&& forall|j: int| 0 <= j < k ==> (#[trigger] s.scans@[j]).scan_id@ != c.scan_id@
    &&& c.audit_sequence > 0
    &&& c.audit_event_hash@ != zero_digest()
}

pub open spec fn known_scan(s: DiscoveryTransferSnapshot, id: Seq<char>) -> bool {
    exists|j: int| 0 <= j < s.scans@.len() && (#[trigger] s.scans@[j]).scan_id@ == id
}

pub open spec fn observation_ok(s: DiscoveryTransferSnapshot, k: int) -> bool {
    let o = s.observations@[k];
    &&& o.organization_id == s.organization_id
    &&& o.project_id == s.project_id
    &&& o.pipeline_id == s.pipeline_id
    &&& o.parent_id == s.parent_id
    &&& known_scan(s, o.scan_id@)
    &&& o.observation_sha256@ != zero_digest()
}

/// Observations recorded under scan `id`; with `selected`, only those not
/// filtered.
pub open spec fn observations_of(os: Seq<DiscoveryObservation>, id: Seq<char>, selected: bool) -> nat
    decreases os.len(),
{
    if os.len() == 0 {
        0
    } else {
        observations_of(os.drop_last(), id, selected) + if os.last().scan_id@ == id && (!selected
            || os.last().disposition != DiscoveryObservationDisposition::Filtered) {
            1nat
        } else {
            0nat
        }
    }
}

pub open spec fn counts_match(s: DiscoveryTransferSnapshot, k: int) -> bool {
    let c = s.scans@[k];
    &&& observations_of(s.observations@, c.scan_id@, false) == c.observation_count
    &&& observations_of(s.observations@, c.scan_id@, true) == c.selected_count
}

pub open spec fn child_ok(s: DiscoveryTransferSnapshot, k: int) -> bool {
    let c = s.children@[k];
    &&& c.organization_id == s.organization_id
    &&& c.project_id == s.project_id
    &&& c.pipeline_id == s.pipeline_id
    &&& c.parent_id == s.parent_id
    &&& known_scan(s, c.last_scan_id@)
    &&& forall|j: int| 0 <= j < k ==> (#[trigger] s.children@[j]).child_key@ != c.child_key@
    &&& forall|j: int| 0 <= j < k ==> (#[trigger] s.children@[j]).child_pipeline_id != c.child_pipeline_id
}

/// Children in state `state`.
pub open spec fn children_in(cs: Seq<DiscoveryChild>, state: DiscoveryChildState) -> nat
    decreases cs.len(),
{
    if cs.len() == 0 {
        0
    } else {
        children_in(cs.drop_last(), state) + if cs.last().state == state {
            1nat
        } else {
            0nat
        }
    }
}

/// Why a transfer snapshot is refused, by the first check it fails, given
/// the trusted handoff hash and the canonical ledger and snapshot digests
/// computed from the snapshot's content.
pub open spec fn transfer_rejection(s: DiscoveryTransferSnapshot, trusted: Seq<u8>, ledger: Seq<u8>, state: Seq<u8>) -> Option<Seq<char>> {
    let vs = s.versions@;
    let n = vs.len();
    if !anchored(s, trusted) {
        Some("discovery transfer does not match the independently retained audit anchor"@)
    } else if s.handoff_audit_event.event_hash@ != audit_event_hash(s.organization_id, s.handoff_audit_event) {
        Some("discovery transfer handoff audit event hash is invalid"@)
    } else if !(forall|k: int| 0 <= k < n ==> version_ok(s, k)) {
        Some("discovery transfer version lineage is incomplete or substituted"@)
    } else if n == 0 || vs[n - 1].generation != s.current_generation || vs[n - 1].state
        != DiscoveryParentState::Quiesced {
        Some("discovery transfer requires a complete lineage ending quiesced"@)
    } else if n < 2 {
        Some("discovery transfer quiescence has no enabled predecessor"@)
    } else if vs[n - 2].state != DiscoveryParentState::Enabled || !same_behavior(vs[n - 2], vs[n - 1])
        || s.scans@.len() == 0 || s.scans@.last().parent_generation != vs[n - 2].generation {
        Some("discovery transfer quiescence is not state-only from the latest reconciled enabled generation"@)
    } else if !(forall|k: int| 0 <= k < s.scans@.len() ==> scan_ok(s, k)) {
        Some("discovery transfer scan ledger is incomplete, reordered, or substituted"@)
    } else if !(forall|k: int| 0 <= k < s.observations@.len() ==> observation_ok(s, k)) {
        Some("discovery transfer observation lineage is incomplete or substituted"@)
    } else if !(forall|k: int| 0 <= k < s.scans@.len() ==> counts_match(s, k)) {
        Some("discovery transfer observation counts do not match the scan ledger"@)
    } else if !(forall|k: int| 0 <= k < s.children@.len() ==> child_ok(s, k)) {
        Some("discovery transfer child set is duplicated or substituted"@)
    } else if s.scans@.last().active_count != children_in(s.children@, DiscoveryChildState::Active)
        || s.scans@.last().quarantined_count != children_in(s.children@, DiscoveryChildState::Quarantined)
        || s.scans@.last().retired_count != children_in(s.children@, DiscoveryChildState::Retired) {
        Some("discovery transfer current child counts do not match the latest scan"@)
    } else if ledger != s.ledger_sha256@ || s.handoff_audit_event.category@ != "discovery"@
        || s.handoff_audit_event.action@ != "discovery.handoff.exported"@ || json_field_text(
        s.handoff_audit_event.payload@,
        "ledger_sha256"@,
    ) != Some(hex_lower(ledger)) || state != s.state_sha256@ {
        Some("discovery transfer digest or audit commitment was substituted"@)
    } else {
        None
    }
}

fn count_observations(os: &Vec<DiscoveryObservation>, id: &str, selected: bool) -> (n: usize)
    ensures
        n == observations_of(os@, id@, selected),
{
    let mut n: usize = 0;
    let mut i: usize = 0;
    assert(os@.take(0) =~= Seq::<DiscoveryObservation>::empty());
    while i < os.len()
        invariant
            i <= os@.len(),
            n <= i,
            n == observations_of(os@.take(i as int), id@, selected),
        decreases os@.len() - i,
    {
        proof {
            assert(os@.take(i + 1).drop_last() =~= os@.take(i as int));
            assert(os@.take(i + 1).last() == os@[i as int]);
        }
        let o = &os[i];
        if str_eq(o.scan_id.as_str(), id) && (!selected || o.disposition != DiscoveryObservationDisposition::Filtered) {
            n = n + 1;
        }
        i = i + 1;
    }
    assert(os@.take(os@.len() as int) =~= os@);
    n
}

fn count_children(cs: &Vec<DiscoveryChild>, state: DiscoveryChildState) -> (n: usize)
    ensures
        n == children_in(cs@, state),
{
    let mut n: usize = 0;
    let mut i: usize = 0;
    assert(cs@.take(0) =~= Seq::<DiscoveryChild>::empty());
    while i < cs.len()
        invariant
            i <= cs@.len(),
            n <= i,
            n == children_in(cs@.take(i as int), state),
        decreases cs@.len() - i,
    {
        proof {
            assert(cs@.take(i + 1).drop_last() =~= cs@.take(i as int));
            assert(cs@.take(i + 1).last() == cs@[i as int]);
        }
        if cs[i].state == state {
            n = n + 1;
        }
        i = i + 1;
    }
    assert(cs@.take(cs@.len() as int) =~= cs@);
    n
}

fn scan_known(s: &DiscoveryTransferSnapshot, id: &str) -> (r: bool)
    ensures
        r == known_scan(*s, id@),
{
    let mut j: usize = 0;
    while j < s.scans.len()
        invariant
            j <= s.scans@.len(),
            forall|q: int| 0 <= q < j ==> (#[trigger] s.scans@[q]).scan_id@ != id@,
        decreases s.scans@.len() - j,
    {
        if str_eq(s.scans[j].scan_id.as_str(), id) {
            return true;
        }
        j = j + 1;
    }
    false
}

fn check_versions(s: &DiscoveryTransferSnapshot) -> (r: bool)
    ensures
        r == forall|k: int| 0 <= k < s.versions@.len() ==> version_ok(*s, k),
{
    let mut k: usize = 0;
    while k < s.versions.len()
        invariant
            k <= s.versions@.len(),
            forall|q: int| 0 <= q < k ==> version_ok(*s, q),
        decreases s.versions@.len() - k,
    {
        let v = &s.versions[k];
        if v.organization_id != s.organization_id || v.project_id != s.project_id || v.pipeline_id != s.pipeline_id
            || v.parent_id != s.parent_id || v.generation as i128 != k as i128 + 1 || v.audit_sequence <= 0
            || is_zero_digest(&v.audit_event_hash) {
            assert(!version_ok(*s, k as int));
            return false;
        }
        k = k + 1;
    }
    true
}

fn check_scans(s: &DiscoveryTransferSnapshot) -> (r: bool)
    ensures
        r == forall|k: int| 0 <= k < s.scans@.len() ==> scan_ok(*s, k),
{
    let mut prior: i64 = 0;
    let mut k: usize = 0;
    while k < s.scans.len()
        invariant
            k <= s.scans@.len(),
            prior == (if k == 0 {
                0
            } else {
                s.scans@[k - 1].source_cursor
            }),
            forall|q: int| 0 <= q < k ==> scan_ok(*s, q),
        decreases s.scans@.len() - k,
    {
        let c = &s.scans[k];
        let mut fresh = true;
        let mut j: usize = 0;
        while j < k
            invariant
                k < s.scans@.len(),
                j <= k,
                fresh == forall|q: int| 0 <= q < j ==> (#[trigger] s.scans@[q]).scan_id@ != s.scans@[k as int].scan_id@,
            decreases k - j,
        {
            if str_eq(s.scans[j].scan_id.as_str(), s.scans[k].scan_id.as_str()) {
                fresh = false;
            }
            j = j + 1;
        }
        if c.organization_id != s.organization_id || c.project_id != s.project_id || c.pipeline_id != s.pipeline_id
            || c.parent_id != s.parent_id || c.source_cursor <= prior || !fresh || c.audit_sequence <= 0
            || is_zero_digest(&c.audit_event_hash) {
            assert(!scan_ok(*s, k as int));
            return false;
        }
        prior = c.source_cursor;
        k = k + 1;
    }
    true
}

fn check_observations(s: &DiscoveryTransferSnapshot) -> (r: bool)
    ensures
        r == forall|k: int| 0 <= k < s.observations@.len() ==> observation_ok(*s, k),
{
    let mut k: usize = 0;
    while k < s.observations.len()
        invariant
            k <= s.observations@.len(),
            forall|q: int| 0 <= q < k ==> observation_ok(*s, q),
        decreases s.observations@.len() - k,
    {
        let o = &s.observations[k];
        if o.organization_id != s.organization_id || o.project_id != s.project_id || o.pipeline_id != s.pipeline_id
            || o.parent_id != s.parent_id || !scan_known(s, o.scan_id.as_str()) || is_zero_digest(
            &o.observation_sha256,
        ) {
            assert(!observation_ok(*s, k as int));
            return false;
        }
        k = k + 1;
    }
    true
}

fn check_counts(s: &DiscoveryTransferSnapshot) -> (r: bool)
    ensures
        r == forall|k: int| 0 <= k < s.scans@.len() ==> counts_match(*s, k),
{
    let mut k: usize = 0;
    while k < s.scans.len()
        invariant
            k <= s.scans@.len(),
            forall|q: int| 0 <= q < k ==> counts_match(*s, q),
        decreases s.scans@.len() - k,
    {
        let c = &s.scans[k];
        let all = count_observations(&s.observations, c.scan_id.as_str(), false);
        let selected = count_observations(&s.observations, c.scan_id.as_str(), true);
        if all != c.observation_count || selected != c.selected_count {
            assert(!counts_match(*s, k as int));
            return false;
        }
        k = k + 1;
    }
    true
}

fn check_children(s: &DiscoveryTransferSnapshot) -> (r: bool)
    ensures
        r == forall|k: int| 0 <= k < s.children@.len() ==> child_ok(*s, k),
{
    let mut k: usize = 0;
    while k < s.children.len()
        invariant
            k <= s.children@.len(),
            forall|q: int| 0 <= q < k ==> child_ok(*s, q),
        decreases s.children@.len() - k,
    {
        let c = &s.children[k];
        let mut fresh_key = true;
        let mut fresh_id = true;
        let mut j: usize = 0;
        while j < k
            invariant
                k < s.children@.len(),
                j <= k,
                fresh_key == forall|q: int| 0 <= q < j ==> (#[trigger] s.children@[q]).child_key@ != s.children@[k as int].child_key@,
                fresh_id == forall|q: int| 0 <= q < j ==> (#[trigger] s.children@[q]).child_pipeline_id != s.children@[k as int].child_pipeline_id,
            decreases k - j,
        {
            if str_eq(s.children[j].child_key.as_str(), s.children[k].child_key.as_str()) {
                fresh_key = false;
            }
            if s.children[j].child_pipeline_id == s.children[k].child_pipeline_id {
                fresh_id = false;
            }
            j = j + 1;
        }
        if c.organization_id != s.organization_id || c.project_id != s.project_id || c.pipeline_id != s.pipeline_id
            || c.parent_id != s.parent_id || !scan_known(s, c.last_scan_id.as_str()) || !fresh_key || !fresh_id {
            assert(!child_ok(*s, k as int));
            return false;
        }
        k = k + 1;
    }
    true
}

/// Verifies a discovery transfer snapshot against the handoff audit event
/// hash retained independently by the receiver. `ledger_sha256` and
/// `snapshot_sha256` are the canonical digests of the snapshot's ledger
/// and of its sealed state, computed from its content by the caller.
#[verifier::rlimit(60)]
pub fn verify_discovery_transfer_snapshot(
    snapshot: &DiscoveryTransferSnapshot,
    trusted_handoff_audit_event_hash: [u8; 32],
    ledger_sha256: [u8; 32],
    snapshot_sha256: [u8; 32],
) -> (r: Result<(), StoreError>)
    ensures
        conflicted_with(
            r,
            transfer_rejection(*snapshot, trusted_handoff_audit_event_hash@, ledger_sha256@, snapshot_sha256@),
        ),
{
    let s = snapshot;
    let trusted = trusted_handoff_audit_event_hash;
    if s.schema_version != 1 || s.current_generation <= 0 || s.audit_sequence <= 0 || is_zero_digest(&trusted)
        || !digest_eq(&s.audit_event_hash, &trusted) || s.handoff_audit_event.sequence != s.audit_sequence
        || !digest_eq(&s.handoff_audit_event.event_hash, &trusted) {
        return conflict("discovery transfer does not match the independently retained audit anchor");
    }
    if verify_audit_event_hash(s.organization_id, &s.handoff_audit_event).is_err() {
        return conflict("discovery transfer handoff audit event hash is invalid");
    }
    if !check_versions(s) {
        return conflict("discovery transfer version lineage is incomplete or substituted");
    }
    let n = s.versions.len();
    if n == 0 || s.versions[n - 1].generation != s.current_generation || s.versions[n - 1].state
        != DiscoveryParentState::Quiesced {
        return conflict("discovery transfer requires a complete lineage ending quiesced");
    }
    if n < 2 {
        return conflict("discovery transfer quiescence has no enabled predecessor");
    }
    let enabled = &s.versions[n - 2];
    let quiesced = &s.versions[n - 1];
    let scans_end_at_enabled = s.scans.len() > 0 && s.scans[s.scans.len() - 1].parent_generation
        == enabled.generation;
    if enabled.state != DiscoveryParentState::Enabled || !same_parent_behavior(enabled, quiesced)
        || !scans_end_at_enabled {
        return conflict(
            "discovery transfer quiescence is not state-only from the latest reconciled enabled generation",
        );
    }
    if !check_scans(s) {
        return conflict("discovery transfer scan ledger is incomplete, reordered, or substituted");
    }
    if !check_observations(s) {
        return conflict("discovery transfer observation lineage is incomplete or substituted");
    }
    if !check_counts(s) {
        return conflict("discovery transfer observation counts do not match the scan ledger");
    }
    if !check_children(s) {
        return conflict("discovery transfer child set is duplicated or substituted");
    }
    let last = &s.scans[s.scans.len() - 1];
    if last.active_count != count_children(&s.children, DiscoveryChildState::Active) || last.quarantined_count
        != count_children(&s.children, DiscoveryChildState::Quarantined) || last.retired_count != count_children(
        &s.children,
        DiscoveryChildState::Retired,
    ) {
        return conflict("discovery transfer current child counts do not match the latest scan");
    }
    let ledger_hex = hex_encode(&ledger_sha256);
    let committed = match json_text_field(s.handoff_audit_event.payload.as_slice(), "ledger_sha256") {
        Some(text) => str_eq(text.as_str(), ledger_hex.as_str()),
        None => false,
    };
    if !digest_eq(&ledger_sha256, &s.ledger_sha256) || !str_eq(s.handoff_audit_event.category.as_str(), "discovery")
        || !str_eq(s.handoff_audit_event.action.as_str(), "discovery.handoff.exported") || !committed || !digest_eq(
        &snapshot_sha256,
        &s.state_sha256,
    ) {
        return conflict("discovery transfer digest or audit commitment was substituted");
    }
    Ok(())
}

/// A stored 32-byte discovery digest.
pub fn digest_array(bytes: &[u8]) -> (r: Result<[u8; 32], StoreError>)
    ensures
        r is Ok <==> bytes@.len() == 32,
        r matches Ok(d) ==> d@ == bytes@,
        r matches Err(e) ==> e is InvalidDiscovery,
{
    match digest_from_slice(bytes) {
        Some(d) => Ok(d),
        None => Err(StoreError::InvalidDiscovery("stored digest has an invalid length".to_owned())),
    }
}

/// The query that reads one parent generation, the generation given as an
/// SQL expression, optionally also matching the idempotency key.
pub fn parent_select(generation: &str, idempotency: bool) -> (q: String)
    ensures
        q@ == "SELECT d.organization_id, d.project_id, d.pipeline_id, d.parent_id,
                v.generation, v.parent_kind, v.state, v.implementation_sha256,
                v.protocol_version, v.configuration_sha256, v.provider,
                v.provider_identity, v.organization_identity, v.repositories,
                v.branch_includes, v.branch_excludes, v.pull_request_strategy,
                v.fork_trust_strategy, v.trusted_fork_repositories,
                v.jenkinsfile_path, v.child_configuration_policy_sha256,
                v.orphan_policy, v.authorization_generation,
                v.authorization_policy_sha256, v.trigger_id, v.trigger_generation,
                v.trigger_configuration_sha256, v.source_implementation_sha256,
                v.source_protocol_version, v.source_configuration_sha256,
                v.restored_from_generation, v.actor_subject, v.reason,
                v.idempotency_key, v.audit_sequence, v.audit_event_hash
         FROM discovery_parent_definitions AS d
         JOIN discovery_parent_versions AS v
           ON v.organization_id = d.organization_id AND v.parent_id = d.parent_id
          AND v.generation = "@ + generation@ + "
         WHERE d.organization_id = $1 AND d.project_id = $2
           AND d.pipeline_id = $3 AND d.parent_id = $4"@ + (if idempotency {
            " AND v.idempotency_key = $5"@
        } else {
            Seq::empty()
        }),
{
    let head = concat_str(
        "SELECT d.organization_id, d.project_id, d.pipeline_id, d.parent_id,
                v.generation, v.parent_kind, v.state, v.implementation_sha256,
                v.protocol_version, v.configuration_sha256, v.provider,
                v.provider_identity, v.organization_identity, v.repositories,
                v.branch_includes, v.branch_excludes, v.pull_request_strategy,
                v.fork_trust_strategy, v.trusted_fork_repositories,
                v.jenkinsfile_path, v.child_configuration_policy_sha256,
                v.orphan_policy, v.authorization_generation,
                v.authorization_policy_sha256, v.trigger_id, v.trigger_generation,
                v.trigger_configuration_sha256, v.source_implementation_sha256,
                v.source_protocol_version, v.source_configuration_sha256,
                v.restored_from_generation, v.actor_subject, v.reason,
                v.idempotency_key, v.audit_sequence, v.audit_event_hash
         FROM discovery_parent_definitions AS d
         JOIN discovery_parent_versions AS v
           ON v.organization_id = d.organization_id AND v.parent_id = d.parent_id
          AND v.generation = ",
        generation,
    );
    let body = concat_str(
        head.as_str(),
        "
         WHERE d.organization_id = $1 AND d.project_id = $2
           AND d.pipeline_id = $3 AND d.parent_id = $4",
    );
    if idempotency {
        concat_str(body.as_str(), " AND v.idempotency_key = $5")
    } else {
        body
    }
}

/// A scan whose identity or source event was already reconciled is a
/// replay, accepted only with the same canonical request digest.
pub fn check_scan_replay(stored_request_sha256: &[u8; 32], request_sha256: &[u8; 32], by_event: bool) -> (r:
    Result<(), StoreError>)
    ensures
        stored_request_sha256@ == request_sha256@ <==> r is Ok,
        r matches Err(e) ==> e matches StoreError::DiscoveryConflict(m) && m@ == if by_event {
            "discovery source event was replayed with different content"@
        } else {
            "discovery scan identity was reused for different content"@
        },
{
    if !digest_eq(stored_request_sha256, request_sha256) {
        if by_event {
            return Err(
                StoreError::DiscoveryConflict(
                    "discovery source event was replayed with different content".to_owned(),
                ),
            );
        }
        return Err(
            StoreError::DiscoveryConflict("discovery scan identity was reused for different content".to_owned()),
        );
    }
    Ok(())
}

/// A scan reconciles against the parent generation it was planned for, and
/// only while the parent is enabled.
pub fn check_scan_parent(parent: &DiscoveryParent, expected_parent_generation: i64) -> (r: Result<(), StoreError>)
    ensures
        parent.generation != expected_parent_generation ==> (r matches Err(StoreError::DiscoveryConflict(m)) && m@
            == "discovery parent generation changed before scan reconciliation"@),
        parent.generation == expected_parent_generation && parent.state != DiscoveryParentState::Enabled ==> r
            == Err::<(), StoreError>(
            StoreError::DiscoveryQuiesced { parent_id: parent.parent_id, generation: parent.generation },
        ),
        parent.generation == expected_parent_generation && parent.state == DiscoveryParentState::Enabled ==> r is Ok,
{
    if parent.generation != expected_parent_generation {
        return Err(
            StoreError::DiscoveryConflict(
                "discovery parent generation changed before scan reconciliation".to_owned(),
            ),
        );
    }
    if parent.state != DiscoveryParentState::Enabled {
        return Err(StoreError::DiscoveryQuiesced { parent_id: parent.parent_id, generation: parent.generation });
    }
    Ok(())
}

/// A scan's source cursor must come strictly after the last reconciled one.
pub fn check_scan_cursor(last_cursor: i64, source_cursor: i64) -> (r: Result<(), StoreError>)
    ensures
        r is Ok <==> source_cursor > last_cursor,
        r matches Err(e) ==> e matches StoreError::DiscoveryConflict(m) && m@
            == "discovery source cursor is duplicate or reordered"@,
{
    if source_cursor <= last_cursor {
        return Err(StoreError::DiscoveryConflict("discovery source cursor is duplicate or reordered".to_owned()));
    }
    Ok(())
}

pub open spec fn is_selected(e: (bool, DiscoveryObservationDisposition)) -> bool {
    e.1 != DiscoveryObservationDisposition::Filtered
}

pub open spec fn selected_count_spec(evaluated: Seq<(bool, DiscoveryObservationDisposition)>) -> nat
    decreases evaluated.len(),
{
    if evaluated.len() == 0 {
        0
    } else {
        selected_count_spec(evaluated.drop_last()) + if is_selected(evaluated.last()) {
            1nat
        } else {
            0nat
        }
    }
}

/// How many evaluated observations were selected, that is not filtered.
pub fn selected_observation_count(evaluated: &Vec<(bool, DiscoveryObservationDisposition)>) -> (n: usize)
    ensures
        n == selected_count_spec(evaluated@),
{
    let mut n: usize = 0;
    let mut i: usize = 0;
    while i < evaluated.len()
        invariant
            i <= evaluated@.len(),
            n == selected_count_spec(evaluated@.take(i as int)),
            n <= i,
        decreases evaluated@.len() - i,
    {
        proof {
            let t = evaluated@.take(i + 1);
            assert(t.drop_last() =~= evaluated@.take(i as int));
            assert(t.last() == evaluated@[i as int]);
        }
        if evaluated[i].1 != DiscoveryObservationDisposition::Filtered {
            n = n + 1;
        }
        i = i + 1;
    }
    assert(evaluated@.take(evaluated@.len() as int) =~= evaluated@);
    n
}

/// What an evaluated observation writes to its child: a filtered
/// observation retires an existing child and creates none; any other
/// disposition is written as it is.
pub open spec fn child_update_spec(disposition: DiscoveryObservationDisposition, has_child: bool) -> Option<
    DiscoveryObservationDisposition,
> {
    if disposition == DiscoveryObservationDisposition::Filtered {
        if has_child {
            Some(DiscoveryObservationDisposition::Absent)
        } else {
            None
        }
    } else {
        Some(disposition)
    }
}

pub fn child_update(disposition: DiscoveryObservationDisposition, has_child: bool) -> (r: Option<
    DiscoveryObservationDisposition,
>)
    ensures
        r == child_update_spec(disposition, has_child),
{
    if disposition == DiscoveryObservationDisposition::Filtered {
        if has_child {
            Some(DiscoveryObservationDisposition::Absent)
        } else {
            None
        }
    } else {
        Some(disposition)
    }
}

/// The child state a written disposition gives; a filtered observation
/// never materializes a child.
pub fn child_state_for(disposition: DiscoveryObservationDisposition) -> (r: Result<DiscoveryChildState, StoreError>)
    ensures
        disposition == DiscoveryObservationDisposition::Active ==> r == Ok::<DiscoveryChildState, StoreError>(
            DiscoveryChildState::Active,
        ),
        disposition == DiscoveryObservationDisposition::Quarantined ==> r == Ok::<DiscoveryChildState, StoreError>(
            DiscoveryChildState::Quarantined,
        ),
        disposition == DiscoveryObservationDisposition::Absent ==> r == Ok::<DiscoveryChildState, StoreError>(
            DiscoveryChildState::Retired,
        ),
        disposition == DiscoveryObservationDisposition::Filtered ==> (r matches Err(StoreError::InvalidDiscovery(m))
            && m@ == "filtered observation cannot materialize a discovery child"@),
{
    match disposition {
        DiscoveryObservationDisposition::Active => Ok(DiscoveryChildState::Active),
        DiscoveryObservationDisposition::Quarantined => Ok(DiscoveryChildState::Quarantined),
        DiscoveryObservationDisposition::Absent => Ok(DiscoveryChildState::Retired),
        DiscoveryObservationDisposition::Filtered => Err(
            StoreError::InvalidDiscovery("filtered observation cannot materialize a discovery child".to_owned()),
        ),
    }
}

/// A reconciled scan never creates a child for a filtered observation, and
/// never leaves an existing child active or quarantined on a filtered one.
pub proof fn law_filtered_observations_never_activate_children(has_child: bool)
    ensures
        child_update_spec(DiscoveryObservationDisposition::Filtered, has_child) == (if has_child {
            Some(DiscoveryObservationDisposition::Absent)
        } else {
            None::<DiscoveryObservationDisposition>
        }),
{
}

/// The child keys a complete snapshot keeps: those of the selected
/// observations; every other child of the parent is retired.
pub fn retained_child_keys(
    observations: &Vec<DiscoveryObservationWrite>,
    evaluated: &Vec<(bool, DiscoveryObservationDisposition)>,
) -> (r: Vec<String>)
    requires
        evaluated@.len() == observations@.len(),
    ensures
        forall|k: Seq<char>|
                        #[trigger] views(r@).contains(k) <==> exists|i: int|
                0 <= i < observations@.len() && is_selected(#[trigger] evaluated@[i]) && observations@[i].child_key@
                    == k,
{
    let mut keys: Vec<String> = Vec::new();
    let mut i: usize = 0;
    while i < observations.len()
        invariant
            i <= observations@.len(),
            evaluated@.len() == observations@.len(),
            forall|k: Seq<char>|
                                #[trigger] views(keys@).contains(k) <==> exists|j: int|
                    0 <= j < i && is_selected(#[trigger] evaluated@[j]) && observations@[j].child_key@ == k,
        decreases observations@.len() - i,
    {
        let ghost before = views(keys@);
        if evaluated[i].1 != DiscoveryObservationDisposition::Filtered {
            let key = observations[i].child_key.clone();
            keys.push(key);
            proof {
                let after = views(keys@);
                assert(after =~= before.push(observations@[i as int].child_key@));
                assert forall|k: Seq<char>| after.contains(k) <==> exists|j: int|
                    0 <= j < i + 1 && is_selected(#[trigger] evaluated@[j]) && observations@[j].child_key@ == k by {
                    if after.contains(k) {
                        let x = choose|x: int| 0 <= x < after.len() && after[x] == k;
                        if x == before.len() {
                            assert(is_selected(evaluated@[i as int]));
                        } else {
                            assert(before[x] == k);
                            assert(before.contains(k));
                        }
                    }
                    if exists|j: int| 0 <= j < i + 1 && is_selected(#[trigger] evaluated@[j])
                        && observations@[j].child_key@ == k {
                        let j = choose|j: int| 0 <= j < i + 1 && is_selected(#[trigger] evaluated@[j])
                            && observations@[j].child_key@ == k;
                        if j == i {
                            assert(after[before.len() as int] == k);
                        } else {
                            assert(before.contains(k));
                            let x = choose|x: int| 0 <= x < before.len() && before[x] == k;
                            assert(after[x] == k);
                        }
                    }
                }
            }
        } else {
            proof {
                assert forall|k: Seq<char>| before.contains(k) <==> exists|j: int|
                    0 <= j < i + 1 && is_selected(#[trigger] evaluated@[j]) && observations@[j].child_key@ == k by {
                    if exists|j: int| 0 <= j < i + 1 && is_selected(#[trigger] evaluated@[j])
                        && observations@[j].child_key@ == k {
                        let j = choose|j: int| 0 <= j < i + 1 && is_selected(#[trigger] evaluated@[j])
                            && observations@[j].child_key@ == k;
                        assert(j != i);
                    }
                }
            }
        }
        i = i + 1;
    }
    keys
}

/// The counts a scan receipt records, each of which must fit in an `i32`.
pub fn scan_receipt_counts(active: i64, quarantined: i64, retired: i64, selected: usize) -> (r: Result<
    (i32, i32, i32, i32),
    StoreError,
>)
    ensures
        !(i32::MIN <= active <= i32::MAX) ==> (r matches Err(StoreError::InvalidDiscovery(m)) && m@
            == "active child count overflow"@),
        i32::MIN <= active <= i32::MAX && !(i32::MIN <= quarantined <= i32::MAX) ==> (r matches Err(
            StoreError::InvalidDiscovery(m),
        ) && m@ == "quarantined child count overflow"@),
        i32::MIN <= active <= i32::MAX && i32::MIN <= quarantined <= i32::MAX && !(i32::MIN <= retired
            <= i32::MAX) ==> (r matches Err(StoreError::InvalidDiscovery(m)) && m@
            == "retired child count overflow"@),
        i32::MIN <= active <= i32::MAX && i32::MIN <= quarantined <= i32::MAX && i32::MIN <= retired
            <= i32::MAX && selected > i32::MAX ==> (r matches Err(StoreError::InvalidDiscovery(m)) && m@
            == "selected observation count overflow"@),
        r matches Ok((a, q, t, s)) ==> a == active && q == quarantined && t == retired && s == selected,
        (i32::MIN <= active <= i32::MAX && i32::MIN <= quarantined <= i32::MAX && i32::MIN <= retired
            <= i32::MAX && selected <= i32::MAX) ==> r is Ok,
{
    if active < i32::MIN as i64 || active > i32::MAX as i64 {
        return Err(StoreError::InvalidDiscovery("active child count overflow".to_owned()));
    }
    if quarantined < i32::MIN as i64 || quarantined > i32::MAX as i64 {
        return Err(StoreError::InvalidDiscovery("quarantined child count overflow".to_owned()));
    }
    if retired < i32::MIN as i64 || retired > i32::MAX as i64 {
        return Err(StoreError::InvalidDiscovery("retired child count overflow".to_owned()));
    }
    if selected > i32::MAX as usize {
        return Err(StoreError::InvalidDiscovery("selected observation count overflow".to_owned()));
    }
    Ok((active as i32, quarantined as i32, retired as i32, selected as i32))
}

/// A put whose idempotency key names a stored version is a replay: it must
/// carry that version's configuration, actor and reason, and expect the
/// generation just before it.
pub open spec fn parent_replay_ok(stored: DiscoveryParent, input: DiscoveryParentWrite, configuration_sha256: Seq<u8>) -> bool {
    &&& stored.configuration_sha256@ == configuration_sha256
    &&& stored.actor_subject@ == input.actor_subject@
    &&& stored.reason@ == input.reason@
    &&& input.expected_generation == stored.generation - 1
}

pub fn check_parent_replay(stored: &DiscoveryParent, input: &DiscoveryParentWrite, configuration_sha256: &[u8; 32]) -> (r:
    Result<(), StoreError>)
    ensures
        r is Ok <==> parent_replay_ok(*stored, *input, configuration_sha256@),
        r matches Err(e) ==> e matches StoreError::DiscoveryConflict(m) && m@
            == "discovery parent idempotency key was reused for different content"@,
{
    if !digest_eq(&stored.configuration_sha256, configuration_sha256) || !str_eq(
        stored.actor_subject.as_str(),
        input.actor_subject.as_str(),
    ) || !str_eq(stored.reason.as_str(), input.reason.as_str()) || stored.generation == i64::MIN
        || input.expected_generation != stored.generation - 1 {
        return Err(
            StoreError::DiscoveryConflict(
                "discovery parent idempotency key was reused for different content".to_owned(),
            ),
        );
    }
    Ok(())
}

/// Where a parent put lands against the stored current generation.
#[derive(Clone, Copy, Debug, PartialEq, Eq, Structural)]
pub enum ParentGenerationPlan {
    /// The parent is created at generation one.
    Create,
    /// The parent is revised to this generation.
    Revise { generation: i64 },
    /// The put expected another generation; the current one is reported.
    Stale { current_generation: i64 },
}

/// Plans a put: with no stored parent only an expected generation of zero
/// creates it; with one, only its current generation is revised, to the
/// next generation.
pub fn plan_parent_generation(current: Option<i64>, expected_generation: i64) -> (r: Result<
    ParentGenerationPlan,
    StoreError,
>)
    ensures
        match current {
            None => r == Ok::<ParentGenerationPlan, StoreError>(
                if expected_generation == 0 {
                    ParentGenerationPlan::Create
                } else {
                    ParentGenerationPlan::Stale { current_generation: 0 }
                },
            ),
            Some(g) => if g != expected_generation {
                r == Ok::<ParentGenerationPlan, StoreError>(ParentGenerationPlan::Stale { current_generation: g })
            } else if g == i64::MAX {
                r matches Err(StoreError::InvalidDiscovery(m)) && m@ == "discovery generation overflow"@
            } else {
                r == Ok::<ParentGenerationPlan, StoreError>(
                    ParentGenerationPlan::Revise { generation: (g + 1) as i64 },
                )
            },
        },
{
    match current {
        None => if expected_generation == 0 {
            Ok(ParentGenerationPlan::Create)
        } else {
            Ok(ParentGenerationPlan::Stale { current_generation: 0 })
        },
        Some(g) => if g != expected_generation {
            Ok(ParentGenerationPlan::Stale { current_generation: g })
        } else if g == i64::MAX {
            Err(StoreError::InvalidDiscovery("discovery generation overflow".to_owned()))
        } else {
            Ok(ParentGenerationPlan::Revise { generation: g + 1 })
        },
    }
}

/// A quiescing put must revise an existing parent (`previous` is the
/// current generation, `None` when the put creates the parent), change
/// nothing but the state, start from an enabled generation and come after
/// the scan of that latest generation.
pub fn check_parent_quiesce(
    input: &DiscoveryParentWrite,
    previous: &Option<DiscoveryParent>,
    latest_scan_generation: Option<i64>,
) -> (r: Result<(), StoreError>)
    ensures
        *previous is None ==> (r matches Err(StoreError::InvalidDiscovery(m)) && m@
            == "discovery parent must reconcile before it can be quiesced"@),
        *previous matches Some(p) ==> if p.state == DiscoveryParentState::Enabled && same_behavior_write(*input, p)
            && latest_scan_generation == Some(p.generation) {
            r is Ok
        } else {
            r matches Err(StoreError::DiscoveryConflict(m)) && m@
                == "quiescence must be a state-only transition from the latest reconciled enabled generation"@
        },
{
    let previous = match previous {
        None => {
            return Err(
                StoreError::InvalidDiscovery("discovery parent must reconcile before it can be quiesced".to_owned()),
            );
        },
        Some(p) => p,
    };
    let scanned = match latest_scan_generation {
        Some(g) => g == previous.generation,
        None => false,
    };
    if previous.state != DiscoveryParentState::Enabled || !same_parent_behavior_write(input, previous) || !scanned {
        return Err(
            StoreError::DiscoveryConflict(
                "quiescence must be a state-only transition from the latest reconciled enabled generation".to_owned(),
            ),
        );
    }
    Ok(())
}

/// A rollback names an earlier generation that is still retained.
pub fn check_parent_restore(restored_from_generation: Option<i64>, generation: i64, retained: bool) -> (r: Result<
    (),
    StoreError,
>)
    ensures
        r is Ok <==> match restored_from_generation {
            Some(g) => g < generation && retained,
            None => true,
        },
        r matches Err(e) ==> e matches StoreError::InvalidDiscovery(m) && m@
            == "discovery rollback source generation is not retained"@,
{
    if let Some(g) = restored_from_generation {
        if g >= generation || !retained {
            return Err(StoreError::InvalidDiscovery("discovery rollback source generation is not retained".to_owned()));
        }
    }
    Ok(())
}

/// The digest that binds a discovery record: SHA-256 of the record's
/// compact JSON bytes.
pub fn canonical_sha256(json: &[u8]) -> (r: [u8; 32])
    ensures
        r@ == sha256_spec(json@),
{
    sha256(json)
}

/// What the store holds for the current generation of a pipeline trigger.
#[derive(Clone, Debug, PartialEq, Eq)]
pub struct StoredTrigger {
    pub generation: i64,
    pub kind: String,
    pub state: String,
    pub configuration_sha256: Vec<u8>,
    pub event_source_identity: String,
    pub provider: String,
}

/// How a binding check ends: `Ok` when the stored authority matches, else
/// the refusal and whether it is a stored digest that could not be read
/// (`true`, an invalid discovery) or a mismatch (`false`, a conflict).
pub open spec fn binding_outcome(r: Result<(), StoreError>, refusal: Option<(bool, Seq<char>)>) -> bool {
    match r {
        Ok(()) => refusal is None,
        Err(StoreError::InvalidDiscovery(m)) => refusal == Some((true, m@)),
        Err(StoreError::DiscoveryConflict(m)) => refusal == Some((false, m@)),
        Err(_) => false,
    }
}

pub open spec fn unreadable_digest() -> Seq<char> {
    "stored digest has an invalid length"@
}

/// The refusal for a stored authorization policy, `(generation, digest)`,
/// that must be at `generation` with `digest`; its digest is read only once
/// the generation matches.
pub open spec fn authorization_refusal(
    stored: Option<(i64, Vec<u8>)>,
    generation: i64,
    digest: Seq<u8>,
    missing: Seq<char>,
    mismatch: Seq<char>,
) -> Option<(bool, Seq<char>)> {
    match stored {
        None => Some((false, missing)),
        Some(a) => if a.0 != generation {
            Some((false, mismatch))
        } else if a.1@.len() != 32 {
            Some((true, unreadable_digest()))
        } else if a.1@ != digest {
            Some((false, mismatch))
        } else {
            None
        },
    }
}

/// The refusal for a stored trigger that must be the enabled SCM webhook
/// at `generation`, with `digest`, `identity` and `provider`; its digest is
/// read only once generation, kind and state match.
pub open spec fn trigger_refusal(
    stored: Option<StoredTrigger>,
    generation: i64,
    digest: Seq<u8>,
    identity: Seq<char>,
    provider: Seq<char>,
    missing: Seq<char>,
    mismatch: Seq<char>,
) -> Option<(bool, Seq<char>)> {
    match stored {
        None => Some((false, missing)),
        Some(t) => if t.generation != generation || t.kind@ != "scm_webhook"@ || t.state@ != "enabled"@ {
            Some((false, mismatch))
        } else if t.configuration_sha256@.len() != 32 {
            Some((true, unreadable_digest()))
        } else if t.configuration_sha256@ != digest || t.event_source_identity@ != identity || t.provider@
            != provider {
            Some((false, mismatch))
        } else {
            None
        },
    }
}

fn refuse(refusal: (bool, &str)) -> (r: Result<(), StoreError>)
    ensures
        binding_outcome(r, Some((refusal.0, refusal.1@))),
{
    if refusal.0 {
        Err(StoreError::InvalidDiscovery(refusal.1.to_owned()))
    } else {
        Err(StoreError::DiscoveryConflict(refusal.1.to_owned()))
    }
}

fn check_authorization_binding(
    stored: &Option<(i64, Vec<u8>)>,
    generation: i64,
    digest: &[u8; 32],
    missing: &str,
    mismatch: &str,
) -> (r: Result<(), StoreError>)
    ensures
        binding_outcome(r, authorization_refusal(*stored, generation, digest@, missing@, mismatch@)),
{
    match stored {
        None => refuse((false, missing)),
        Some(a) => {
            if a.0 != generation {
                return refuse((false, mismatch));
            }
            match digest_from_slice(a.1.as_slice()) {
                None => refuse((true, "stored digest has an invalid length")),
                Some(d) => if !digest_eq(&d, digest) {
                    refuse((false, mismatch))
                } else {
                    Ok(())
                },
            }
        },
    }
}

fn check_trigger_binding(
    stored: &Option<StoredTrigger>,
    generation: i64,
    digest: &[u8; 32],
    identity: &str,
    provider: &str,
    missing: &str,
    mismatch: &str,
) -> (r: Result<(), StoreError>)
    ensures
        binding_outcome(r, trigger_refusal(*stored, generation, digest@, identity@, provider@, missing@, mismatch@)),
{
    match stored {
        None => refuse((false, missing)),
        Some(t) => {
            if t.generation != generation || !str_eq(t.kind.as_str(), "scm_webhook") || !str_eq(
                t.state.as_str(),
                "enabled",
            ) {
                return refuse((false, mismatch));
            }
            match digest_from_slice(t.configuration_sha256.as_slice()) {
                None => refuse((true, "stored digest has an invalid length")),
                Some(d) => if !digest_eq(&d, digest) || !str_eq(t.event_source_identity.as_str(), identity)
                    || !str_eq(t.provider.as_str(), provider) {
                    refuse((false, mismatch))
                } else {
                    Ok(())
                },
            }
        },
    }
}

/// Why a parent write's saved pipeline, authorization policy and trigger,
/// as the store holds them, do not bind it.
pub open spec fn dependency_refusal(
    input: DiscoveryParentWrite,
    pipeline_exists: bool,
    authorization: Option<(i64, Vec<u8>)>,
    trigger: Option<StoredTrigger>,
) -> Option<(bool, Seq<char>)> {
    if !pipeline_exists {
        Some((false, "discovery parent does not identify a saved pipeline"@))
    } else if authorization_refusal(
        authorization,
        input.authorization_generation,
        input.authorization_policy_sha256@,
        "discovery parent requires an installed authorization policy"@,
        "discovery authorization generation or digest was substituted"@,
    ) is Some {
        authorization_refusal(
            authorization,
            input.authorization_generation,
            input.authorization_policy_sha256@,
            "discovery parent requires an installed authorization policy"@,
            "discovery authorization generation or digest was substituted"@,
        )
    } else {
        trigger_refusal(
            trigger,
            input.trigger_generation,
            input.trigger_configuration_sha256@,
            input.provider_identity@,
            input.provider@,
            "discovery parent requires a saved SCM webhook trigger"@,
            "discovery trigger generation, configuration, state, provider, or provider identity was substituted"@,
        )
    }
}

/// Checks that a parent write names a saved pipeline and the project's
/// current authorization policy and SCM webhook trigger.
pub fn check_parent_dependencies(
    input: &DiscoveryParentWrite,
    pipeline_exists: bool,
    authorization: &Option<(i64, Vec<u8>)>,
    trigger: &Option<StoredTrigger>,
) -> (r: Result<(), StoreError>)
    ensures
        binding_outcome(r, dependency_refusal(*input, pipeline_exists, *authorization, *trigger)),
{
    if !pipeline_exists {
        return refuse((false, "discovery parent does not identify a saved pipeline"));
    }
    let a = check_authorization_binding(
        authorization,
        input.authorization_generation,
        &input.authorization_policy_sha256,
        "discovery parent requires an installed authorization policy",
        "discovery authorization generation or digest was substituted",
    );
    if a.is_err() {
        return a;
    }
    check_trigger_binding(
        trigger,
        input.trigger_generation,
        &input.trigger_configuration_sha256,
        input.provider_identity.as_str(),
        input.provider.as_str(),
        "discovery parent requires a saved SCM webhook trigger",
        "discovery trigger generation, configuration, state, provider, or provider identity was substituted",
    )
}

/// Why a parent's authorization policy and trigger, as the store holds them
/// now, no longer match what the parent was saved against.
pub open spec fn live_authority_refusal(
    parent: DiscoveryParent,
    authorization: Option<(i64, Vec<u8>)>,
    trigger: Option<StoredTrigger>,
) -> Option<(bool, Seq<char>)> {
    let drifted = "discovery authorization authority drifted before reconciliation"@;
    if authorization_refusal(
        authorization,
        parent.authorization_generation,
        parent.authorization_policy_sha256@,
        drifted,
        drifted,
    ) is Some {
        authorization_refusal(
            authorization,
            parent.authorization_generation,
            parent.authorization_policy_sha256@,
            drifted,
            drifted,
        )
    } else {
        trigger_refusal(
            trigger,
            parent.trigger_generation,
            parent.trigger_configuration_sha256@,
            parent.provider_identity@,
            parent.provider@,
            "discovery trigger authority drifted before reconciliation"@,
            "discovery trigger authority drifted before reconciliation"@,
        )
    }
}

/// Checks, before a scan is reconciled, that the parent's authorization
/// policy and trigger are still the ones it was saved against.
pub fn check_live_authorities(
    parent: &DiscoveryParent,
    authorization: &Option<(i64, Vec<u8>)>,
    trigger: &Option<StoredTrigger>,
) -> (r: Result<(), StoreError>)
    ensures
        binding_outcome(r, live_authority_refusal(*parent, *authorization, *trigger)),
{
    let a = check_authorization_binding(
        authorization,
        parent.authorization_generation,
        &parent.authorization_policy_sha256,
        "discovery authorization authority drifted before reconciliation",
        "discovery authorization authority drifted before reconciliation",
    );
    if a.is_err() {
        return a;
    }
    check_trigger_binding(
        trigger,
        parent.trigger_generation,
        &parent.trigger_configuration_sha256,
        parent.provider_identity.as_str(),
        parent.provider.as_str(),
        "discovery trigger authority drifted before reconciliation",
        "discovery trigger authority drifted before reconciliation",
    )
}

/// What a parent write did.
#[derive(Clone, Debug, PartialEq, Eq)]
pub enum DiscoveryParentPutOutcome {
    Created(DiscoveryParent),
    Revised(DiscoveryParent),
    Replayed(DiscoveryParent),
    PreconditionFailed { current_generation: i64 },
}

/// What a reconciled scan answers.
#[derive(Clone, Debug, PartialEq, Eq)]
pub struct DiscoveryScanReceipt {
    pub organization_id: u128,
    pub project_id: u128,
    pub pipeline_id: u128,
    pub parent_id: u128,
    pub parent_generation: i64,
    pub scan_id: String,
    pub source: DiscoveryScanSource,
    pub source_event_id: Option<String>,
    pub source_cursor: i64,
    pub complete_snapshot: bool,
    pub provider_snapshot_sha256: [u8; 32],
    pub request_sha256: [u8; 32],
    pub observation_count: usize,
    pub selected_count: usize,
    pub active_count: usize,
    pub quarantined_count: usize,
    pub retired_count: usize,
    pub audit_sequence: i64,
    pub audit_event_hash: [u8; 32],
}

/// Whether a scan was reconciled now or had been before.
#[derive(Clone, Debug, PartialEq, Eq)]
pub enum DiscoveryScanOutcome {
    Reconciled(DiscoveryScanReceipt),
    Replayed(DiscoveryScanReceipt),
}

/// Whether the stored child record `e` is the observed child, under the
/// same key, pipeline, repository, ref, pull request, head and fork flag.
pub open spec fn identity_matches(e: DiscoveryIdentityRecord, o: DiscoveryObservationWrite) -> bool {
    &&& e.0@ == o.child_key@
    &&& e.1 == o.child_pipeline_id
    &&& e.2@ == o.repository_identity@
    &&& e.3@ == o.ref_kind.name()
    &&& e.4@ == o.ref_name@
    &&& e.5 == o.pull_request_number
    &&& e.6@ == o.head_repository_identity@
    &&& e.7 == (o.head_repository_identity@ != o.repository_identity@)
}

/// Why an observation substitutes a key or pipeline identity: an earlier
/// observation under its key or pipeline differs (`retained_mismatch`), or
/// the stored children under its key or pipeline are not exactly it.
pub open spec fn identity_refusal(
    retained_mismatch: bool,
    existing: Seq<DiscoveryIdentityRecord>,
    o: DiscoveryObservationWrite,
) -> Option<Seq<char>> {
    if retained_mismatch {
        Some("discovery observation key or pipeline identity was substituted"@)
    } else if existing.len() > 1 || exists|i: int| 0 <= i < existing.len() && !identity_matches(#[trigger] existing[i], o) {
        Some("discovery child key or pipeline identity was substituted"@)
    } else {
        None
    }
}

pub fn check_observation_identity(
    retained_mismatch: bool,
    existing: &Vec<DiscoveryIdentityRecord>,
    observation: &DiscoveryObservationWrite,
) -> (r: Result<(), StoreError>)
    ensures
        conflicted_with(r, identity_refusal(retained_mismatch, existing@, *observation)),
{
    if retained_mismatch {
        return conflict("discovery observation key or pipeline identity was substituted");
    }
    let expected_fork = !str_eq(observation.head_repository_identity.as_str(), observation.repository_identity.as_str());
    if existing.len() > 1 {
        return conflict("discovery child key or pipeline identity was substituted");
    }
    let mut i: usize = 0;
    while i < existing.len()
        invariant
            i <= existing@.len(),
            expected_fork == (observation.head_repository_identity@ != observation.repository_identity@),
            !retained_mismatch,
            existing@.len() <= 1,
            forall|x: int| 0 <= x < i ==> identity_matches(#[trigger] existing@[x], *observation),
        decreases existing@.len() - i,
    {
        if !discovery_identity_matches(&existing[i], observation, expected_fork) {
            assert(!identity_matches(existing@[i as int], *observation));
            return conflict("discovery child key or pipeline identity was substituted");
        }
        i = i + 1;
    }
    Ok(())
}

/// A complete snapshot retires the children it did not select when the
/// parent's orphan policy says so.
pub fn retires_orphans(scan: &DiscoveryScanWrite, parent: &DiscoveryParent) -> (r: bool)
    ensures
        r == (scan.complete_snapshot && parent.orphan_policy == OrphanPolicy::Retire),
{
    scan.complete_snapshot && parent.orphan_policy == OrphanPolicy::Retire
}

} // verus!
