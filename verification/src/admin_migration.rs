//! Migration of external admin (write) clients from Jenkins to the McLoving
//! public API: the operation vocabulary and its canonical v1 contracts, the
//! checks on a client write, its binding and contract digests, and the rule
//! by which admin authority alternates between the two systems.
use vstd::prelude::*;
use vstd::utf8::encode_utf8;

use crate::authz::{first_denied, first_denied_action, Action, Principal};
use crate::encoding::{
    digest_eq, framed, i64_be, id_bytes, is_zero_digest, push_framed, push_framed_i64, push_framed_id,
    push_framed_str, push_framed_u64, sha256, sha256_spec, u64_be, zero_digest,
};
use crate::identity::canonical_text;
use crate::migration::{
    http_endpoint, is_http_endpoint, opt_digest_bytes, opt_str_eq, opt_text_bytes, opt_text_is,
    push_framed_opt_digest, push_framed_opt_str,
};
use crate::text::{chars_of, concat_str, contains_char, padded, str_eq, utf8_len};
use crate::StoreError;

verus! {

#[derive(Clone, Copy, Debug, PartialEq, Eq, Structural)]
pub enum ExternalAdminAuthority {
    JenkinsSource,
    McLovingTarget,
}

impl ExternalAdminAuthority {
    pub open spec fn name(self) -> Seq<char> {
        match self {
            ExternalAdminAuthority::JenkinsSource => "jenkins_source"@,
            ExternalAdminAuthority::McLovingTarget => "mcloving_target"@,
        }
    }

    pub fn as_str(self) -> (s: &'static str)
        ensures
            s@ == self.name(),
    {
        match self {
            ExternalAdminAuthority::JenkinsSource => "jenkins_source",
            ExternalAdminAuthority::McLovingTarget => "mcloving_target",
        }
    }
}

/// A write operation a Jenkins admin client performs, in canonical order.
#[derive(Clone, Copy, Debug, PartialEq, Eq, Structural)]
pub enum ExternalAdminOperation {
    ApprovalCreate,
    BuildCancel,
    BuildPauseResume,
    BuildRetry,
    BuildSubmit,
    BuildTerminate,
    ControllerGlobalMutate,
    CredentialReferenceMutate,
    FolderMutate,
    InputSubmit,
    NodeMutate,
    PipelineDelete,
    PipelineDisable,
    PipelinePut,
    QueueReorder,
}

impl ExternalAdminOperation {
    pub open spec fn name(self) -> Seq<char> {
        match self {
            ExternalAdminOperation::ApprovalCreate => "approval_create"@,
            ExternalAdminOperation::BuildCancel => "build_cancel"@,
            ExternalAdminOperation::BuildPauseResume => "build_pause_resume"@,
            ExternalAdminOperation::BuildRetry => "build_retry"@,
            ExternalAdminOperation::BuildSubmit => "build_submit"@,
            ExternalAdminOperation::BuildTerminate => "build_terminate"@,
            ExternalAdminOperation::ControllerGlobalMutate => "controller_global_mutate"@,
            ExternalAdminOperation::CredentialReferenceMutate => "credential_reference_mutate"@,
            ExternalAdminOperation::FolderMutate => "folder_mutate"@,
            ExternalAdminOperation::InputSubmit => "input_submit"@,
            ExternalAdminOperation::NodeMutate => "node_mutate"@,
            ExternalAdminOperation::PipelineDelete => "pipeline_delete"@,
            ExternalAdminOperation::PipelineDisable => "pipeline_disable"@,
            ExternalAdminOperation::PipelinePut => "pipeline_put"@,
            ExternalAdminOperation::QueueReorder => "queue_reorder"@,
        }
    }

    /// Position in the canonical order, the order of declaration.
    pub open spec fn rank(self) -> int {
        match self {
            ExternalAdminOperation::ApprovalCreate => 0,
            ExternalAdminOperation::BuildCancel => 1,
            ExternalAdminOperation::BuildPauseResume => 2,
            ExternalAdminOperation::BuildRetry => 3,
            ExternalAdminOperation::BuildSubmit => 4,
            ExternalAdminOperation::BuildTerminate => 5,
            ExternalAdminOperation::ControllerGlobalMutate => 6,
            ExternalAdminOperation::CredentialReferenceMutate => 7,
            ExternalAdminOperation::FolderMutate => 8,
            ExternalAdminOperation::InputSubmit => 9,
            ExternalAdminOperation::NodeMutate => 10,
            ExternalAdminOperation::PipelineDelete => 11,
            ExternalAdminOperation::PipelineDisable => 12,
            ExternalAdminOperation::PipelinePut => 13,
            ExternalAdminOperation::QueueReorder => 14,
        }
    }

    /// The operation at a position of the canonical order.
    pub open spec fn at_rank(k: int) -> ExternalAdminOperation {
        if k == 0 {
            ExternalAdminOperation::ApprovalCreate
        } else if k == 1 {
            ExternalAdminOperation::BuildCancel
        } else if k == 2 {
            ExternalAdminOperation::BuildPauseResume
        } else if k == 3 {
            ExternalAdminOperation::BuildRetry
        } else if k == 4 {
            ExternalAdminOperation::BuildSubmit
        } else if k == 5 {
            ExternalAdminOperation::BuildTerminate
        } else if k == 6 {
            ExternalAdminOperation::ControllerGlobalMutate
        } else if k == 7 {
            ExternalAdminOperation::CredentialReferenceMutate
        } else if k == 8 {
            ExternalAdminOperation::FolderMutate
        } else if k == 9 {
            ExternalAdminOperation::InputSubmit
        } else if k == 10 {
            ExternalAdminOperation::NodeMutate
        } else if k == 11 {
            ExternalAdminOperation::PipelineDelete
        } else if k == 12 {
            ExternalAdminOperation::PipelineDisable
        } else if k == 13 {
            ExternalAdminOperation::PipelinePut
        } else {
            ExternalAdminOperation::QueueReorder
        }
    }

    /// Every operation, in canonical order.
    pub fn all() -> (r: Vec<ExternalAdminOperation>)
        ensures
            r@.len() == 15,
            forall|k: int| 0 <= k < 15 ==> #[trigger] r@[k] == ExternalAdminOperation::at_rank(k),
    {
        vec![
            ExternalAdminOperation::ApprovalCreate,
            ExternalAdminOperation::BuildCancel,
            ExternalAdminOperation::BuildPauseResume,
            ExternalAdminOperation::BuildRetry,
            ExternalAdminOperation::BuildSubmit,
            ExternalAdminOperation::BuildTerminate,
            ExternalAdminOperation::ControllerGlobalMutate,
            ExternalAdminOperation::CredentialReferenceMutate,
            ExternalAdminOperation::FolderMutate,
            ExternalAdminOperation::InputSubmit,
            ExternalAdminOperation::NodeMutate,
            ExternalAdminOperation::PipelineDelete,
            ExternalAdminOperation::PipelineDisable,
            ExternalAdminOperation::PipelinePut,
            ExternalAdminOperation::QueueReorder,
        ]
    }

    pub fn as_str(self) -> (s: &'static str)
        ensures
            s@ == self.name(),
    {
        match self {
            ExternalAdminOperation::ApprovalCreate => "approval_create",
            ExternalAdminOperation::BuildCancel => "build_cancel",
            ExternalAdminOperation::BuildPauseResume => "build_pause_resume",
            ExternalAdminOperation::BuildRetry => "build_retry",
            ExternalAdminOperation::BuildSubmit => "build_submit",
            ExternalAdminOperation::BuildTerminate => "build_terminate",
            ExternalAdminOperation::ControllerGlobalMutate => "controller_global_mutate",
            ExternalAdminOperation::CredentialReferenceMutate => "credential_reference_mutate",
            ExternalAdminOperation::FolderMutate => "folder_mutate",
            ExternalAdminOperation::InputSubmit => "input_submit",
            ExternalAdminOperation::NodeMutate => "node_mutate",
            ExternalAdminOperation::PipelineDelete => "pipeline_delete",
            ExternalAdminOperation::PipelineDisable => "pipeline_disable",
            ExternalAdminOperation::PipelinePut => "pipeline_put",
            ExternalAdminOperation::QueueReorder => "queue_reorder",
        }
    }

    /// The canonical McLoving v1 contract of an operation that has one:
    /// method, endpoint, precondition, idempotency key and required action.
    pub open spec fn admitted(self) -> Option<(Seq<char>, Seq<char>, Seq<char>, Seq<char>, Action)> {
        match self {
            ExternalAdminOperation::PipelinePut => Some(
                (
                    "PUT"@,
                    "/api/v1/organizations/{organization}/projects/{project}/pipelines/{pipeline}"@,
                    "if_match_revision"@,
                    "desired_state_digest+revision"@,
                    Action::ProjectConfigure,
                ),
            ),
            ExternalAdminOperation::BuildSubmit => Some(
                (
                    "POST"@,
                    "/api/v1/organizations/{organization}/projects/{project}/builds"@,
                    "pipeline_digest"@,
                    "idempotency_key"@,
                    Action::BuildTrigger,
                ),
            ),
            ExternalAdminOperation::BuildCancel => Some(
                (
                    "POST"@,
                    "/api/v1/organizations/{organization}/projects/{project}/builds/{build}/cancel"@,
                    "build_state_fence"@,
                    "build_id+cancel_state"@,
                    Action::BuildCancel,
                ),
            ),
            ExternalAdminOperation::BuildRetry => Some(
                (
                    "POST"@,
                    "/api/v1/organizations/{organization}/projects/{project}/builds/{build}/attempts/{attempt}/retry"@,
                    "attempt_fence"@,
                    "attempt_id+request_digest"@,
                    Action::BuildRetry,
                ),
            ),
            ExternalAdminOperation::ApprovalCreate => Some(
                (
                    "POST"@,
                    "/api/v1/organizations/{organization}/projects/{project}/builds/{build}/approvals"@,
                    "environment+action+expiry"@,
                    "approval_id"@,
                    Action::ApprovalAct,
                ),
            ),
            _ => None,
        }
    }

    pub fn admitted_contract(self) -> (r: Option<(&'static str, &'static str, &'static str, &'static str, Action)>)
        ensures
            r is None <==> self.admitted() is None,
            r matches Some(t) ==> self.admitted() == Some((t.0@, t.1@, t.2@, t.3@, t.4)),
    {
        match self {
            ExternalAdminOperation::PipelinePut => Some(
                (
                    "PUT",
                    "/api/v1/organizations/{organization}/projects/{project}/pipelines/{pipeline}",
                    "if_match_revision",
                    "desired_state_digest+revision",
                    Action::ProjectConfigure,
                ),
            ),
            ExternalAdminOperation::BuildSubmit => Some(
                (
                    "POST",
                    "/api/v1/organizations/{organization}/projects/{project}/builds",
                    "pipeline_digest",
                    "idempotency_key",
                    Action::BuildTrigger,
                ),
            ),
            ExternalAdminOperation::BuildCancel => Some(
                (
                    "POST",
                    "/api/v1/organizations/{organization}/projects/{project}/builds/{build}/cancel",
                    "build_state_fence",
                    "build_id+cancel_state",
                    Action::BuildCancel,
                ),
            ),
            ExternalAdminOperation::BuildRetry => Some(
                (
                    "POST",
                    "/api/v1/organizations/{organization}/projects/{project}/builds/{build}/attempts/{attempt}/retry",
                    "attempt_fence",
                    "attempt_id+request_digest",
                    Action::BuildRetry,
                ),
            ),
            ExternalAdminOperation::ApprovalCreate => Some(
                (
                    "POST",
                    "/api/v1/organizations/{organization}/projects/{project}/builds/{build}/approvals",
                    "environment+action+expiry",
                    "approval_id",
                    Action::ApprovalAct,
                ),
            ),
            _ => None,
        }
    }
}

proof fn lemma_operation_rank(op: ExternalAdminOperation)
    ensures
        0 <= op.rank() < 15,
        ExternalAdminOperation::at_rank(op.rank()) == op,
{
}

#[derive(Clone, Copy, Debug, PartialEq, Eq, Structural)]
pub enum ExternalAdminDisposition {
    McLovingV1,
    OwnerRetired,
    Pending,
}

impl ExternalAdminDisposition {
    pub open spec fn name(self) -> Seq<char> {
        match self {
            ExternalAdminDisposition::McLovingV1 => "mcloving_v1"@,
            ExternalAdminDisposition::OwnerRetired => "owner_retired"@,
            ExternalAdminDisposition::Pending => "pending"@,
        }
    }

    pub fn as_str(self) -> (s: &'static str)
        ensures
            s@ == self.name(),
    {
        match self {
            ExternalAdminDisposition::McLovingV1 => "mcloving_v1",
            ExternalAdminDisposition::OwnerRetired => "owner_retired",
            ExternalAdminDisposition::Pending => "pending",
        }
    }
}

/// How one admin operation is handled after the migration.
#[derive(Clone, Debug, PartialEq, Eq)]
pub struct ExternalAdminOperationContract {
    pub operation: ExternalAdminOperation,
    pub disposition: ExternalAdminDisposition,
    pub method: Option<String>,
    pub endpoint: Option<String>,
    pub precondition: Option<String>,
    pub idempotency: Option<String>,
    pub desired_state_schema: Option<String>,
    pub retirement_evidence_digest: Option<[u8; 32]>,
}

/// One reviewed generation of an external admin client's authority.
#[derive(Clone, Debug, PartialEq, Eq)]
pub struct ExternalAdminClientWrite {
    pub organization_id: u128,
    pub project_id: u128,
    pub client_id: String,
    pub generation: i64,
    pub expected_current_generation: Option<i64>,
    pub authority: ExternalAdminAuthority,
    pub source_inventory_digest: [u8; 32],
    pub source_inventory_generation: String,
    pub source_endpoint: String,
    pub source_caller: String,
    pub source_authentication: String,
    pub source_scope: String,
    pub target_identity_id: u128,
    pub target_subject: String,
    pub target_api_base: String,
    pub target_api_version: String,
    pub operation_contracts: Vec<ExternalAdminOperationContract>,
    pub observation_started_unix_ms: i64,
    pub observation_ended_unix_ms: i64,
    pub source_writes_observed: u64,
    pub positive_authorization_digest: [u8; 32],
    pub negative_authorization_digest: [u8; 32],
    pub convergence_digest: [u8; 32],
    pub ordering_idempotency_digest: [u8; 32],
    pub partial_failure_retry_digest: [u8; 32],
    pub conflict_digest: [u8; 32],
    pub rollback_from_generation: Option<i64>,
    pub rollback_evidence_digest: Option<[u8; 32]>,
    pub reviewer: String,
    pub actor_subject: String,
    pub expected_contract_digest: [u8; 32],
}

/// What an installed admin client generation answers.
#[derive(Clone, Debug, PartialEq, Eq)]
pub struct ExternalAdminClientReceipt {
    pub organization_id: u128,
    pub project_id: u128,
    pub client_id: String,
    pub generation: i64,
    pub authority: ExternalAdminAuthority,
    pub binding_digest: [u8; 32],
    pub contract_digest: [u8; 32],
}

pub open spec fn invalid_text_message(name: Seq<char>) -> Seq<char> {
    "external admin client "@ + name + " is invalid"@
}

/// The refusal `r` carries, as an invalid admin migration with message `m`.
pub open spec fn refused_with(r: Result<(), StoreError>, rejection: Option<Seq<char>>) -> bool {
    match r {
        Ok(()) => rejection is None,
        Err(StoreError::InvalidAdminMigration(m)) => rejection == Some(m@),
        Err(_) => false,
    }
}

pub fn validate_text(name: &str, value: &str, max: usize) -> (r: Result<(), StoreError>)
    ensures
        refused_with(
            r,
            if canonical_text(value@, max as nat) {
                None
            } else {
                Some(invalid_text_message(name@))
            },
        ),
{
    let empty = chars_of(value).len() == 0;
    if empty || padded(value) || utf8_len(value) > max || contains_char(value, '\u{0}') {
        let head = concat_str("external admin client ", name);
        return Err(StoreError::InvalidAdminMigration(concat_str(head.as_str(), " is invalid")));
    }
    Ok(())
}

/// The first free-text field of a write that is not canonical.
pub open spec fn text_rejection(input: ExternalAdminClientWrite) -> Option<Seq<char>> {
    if !canonical_text(input.client_id@, 256) {
        Some(invalid_text_message("client id"@))
    } else if !canonical_text(input.source_inventory_generation@, 512) {
        Some(invalid_text_message("source inventory generation"@))
    } else if !canonical_text(input.source_endpoint@, 2048) {
        Some(invalid_text_message("source endpoint"@))
    } else if !canonical_text(input.source_caller@, 512) {
        Some(invalid_text_message("source caller"@))
    } else if !canonical_text(input.source_authentication@, 512) {
        Some(invalid_text_message("source authentication"@))
    } else if !canonical_text(input.source_scope@, 512) {
        Some(invalid_text_message("source scope"@))
    } else if !canonical_text(input.target_subject@, 512) {
        Some(invalid_text_message("target subject"@))
    } else if !canonical_text(input.target_api_base@, 2048) {
        Some(invalid_text_message("target API base"@))
    } else if !canonical_text(input.reviewer@, 512) {
        Some(invalid_text_message("approver"@))
    } else if !canonical_text(input.actor_subject@, 512) {
        Some(invalid_text_message("actor subject"@))
    } else {
        None
    }
}

/// How many contracts classify `op`.
pub open spec fn op_count(cs: Seq<ExternalAdminOperationContract>, op: ExternalAdminOperation) -> nat
    decreases cs.len(),
{
    if cs.len() == 0 {
        0
    } else {
        op_count(cs.drop_last(), op) + if cs.last().operation == op {
            1nat
        } else {
            0nat
        }
    }
}

/// Every canonical operation is classified by exactly one contract.
pub open spec fn operations_classified(cs: Seq<ExternalAdminOperationContract>) -> bool {
    cs.len() == 15 && forall|op: ExternalAdminOperation| #[trigger] op_count(cs, op) == 1
}

/// Why a single contract does not fit its disposition, if it does not.
pub open spec fn contract_rejection(c: ExternalAdminOperationContract) -> Option<Seq<char>> {
    match c.disposition {
        ExternalAdminDisposition::McLovingV1 => match c.operation.admitted() {
            None => Some("unsupported admin operation cannot claim a McLoving v1 mapping"@),
            Some(t) => if !opt_text_is(c.method, t.0) || !opt_text_is(c.endpoint, t.1) || !opt_text_is(
                c.precondition,
                t.2,
            ) || !opt_text_is(c.idempotency, t.3) || !opt_text_is(c.desired_state_schema, "mcloving.public-api/v1"@)
                || c.retirement_evidence_digest is Some {
                Some("external admin operation does not match its canonical v1 contract"@)
            } else {
                None
            },
        },
        ExternalAdminDisposition::OwnerRetired => if c.method is Some || c.endpoint is Some || c.precondition is Some
            || c.idempotency is Some || c.desired_state_schema is Some || c.retirement_evidence_digest is None || (
        c.retirement_evidence_digest matches Some(d) && d@ == zero_digest()) {
            Some("owner-retired admin operation requires only non-zero retirement evidence"@)
        } else {
            None
        },
        ExternalAdminDisposition::Pending => if c.method is Some || c.endpoint is Some || c.precondition is Some
            || c.idempotency is Some || c.desired_state_schema is Some || c.retirement_evidence_digest is Some {
            Some("pending admin operation cannot carry a target or retirement contract"@)
        } else {
            None
        },
    }
}

/// The rejection of the first contract, in the order given, that has one.
pub open spec fn first_contract_rejection(cs: Seq<ExternalAdminOperationContract>) -> Option<Seq<char>>
    decreases cs.len(),
{
    if cs.len() == 0 {
        None
    } else {
        let earlier = first_contract_rejection(cs.drop_last());
        if earlier is Some {
            earlier
        } else {
            contract_rejection(cs.last())
        }
    }
}

pub open spec fn some_evidence_missing(input: ExternalAdminClientWrite) -> bool {
    ||| input.source_inventory_digest@ == zero_digest()
    ||| input.positive_authorization_digest@ == zero_digest()
    ||| input.negative_authorization_digest@ == zero_digest()
    ||| input.convergence_digest@ == zero_digest()
    ||| input.ordering_idempotency_digest@ == zero_digest()
    ||| input.partial_failure_retry_digest@ == zero_digest()
    ||| input.conflict_digest@ == zero_digest()
}

/// Why a client write is refused before anything is read from the store,
/// by the first rule it breaks.
pub open spec fn input_rejection(input: ExternalAdminClientWrite) -> Option<Seq<char>> {
    if input.generation <= 0 {
        Some("external admin client generation must be positive"@)
    } else if text_rejection(input) is Some {
        text_rejection(input)
    } else if !is_http_endpoint(input.source_endpoint@) || !is_http_endpoint(input.target_api_base@) {
        Some("source and target endpoints must be explicit HTTP(S) URLs"@)
    } else if input.target_api_version@ != "v1"@ {
        Some("external admin client target API version must be v1"@)
    } else if input.observation_started_unix_ms <= 0 || input.observation_ended_unix_ms
        <= input.observation_started_unix_ms {
        Some("external admin client observation window is invalid"@)
    } else if !operations_classified(input.operation_contracts@) {
        Some("external admin client must classify every canonical write operation exactly once"@)
    } else if first_contract_rejection(input.operation_contracts@) is Some {
        first_contract_rejection(input.operation_contracts@)
    } else if some_evidence_missing(input) {
        Some("external admin client evidence digests must be non-zero"@)
    } else if input.rollback_evidence_digest matches Some(d) && d@ == zero_digest() {
        Some("external admin client rollback evidence digest must be non-zero"@)
    } else if (input.rollback_from_generation is Some) != (input.rollback_evidence_digest is Some) {
        Some("external admin client rollback fields must be supplied together"@)
    } else {
        None
    }
}

fn invalid(message: &str) -> (r: Result<(), StoreError>)
    ensures
        refused_with(r, Some(message@)),
{
    Err(StoreError::InvalidAdminMigration(message.to_owned()))
}

fn validate_texts(input: &ExternalAdminClientWrite) -> (r: Result<(), StoreError>)
    ensures
        refused_with(r, text_rejection(*input)),
{
    if let Err(e) = validate_text("client id", input.client_id.as_str(), 256) {
        return Err(e);
    }
    if let Err(e) = validate_text("source inventory generation", input.source_inventory_generation.as_str(), 512) {
        return Err(e);
    }
    if let Err(e) = validate_text("source endpoint", input.source_endpoint.as_str(), 2048) {
        return Err(e);
    }
    if let Err(e) = validate_text("source caller", input.source_caller.as_str(), 512) {
        return Err(e);
    }
    if let Err(e) = validate_text("source authentication", input.source_authentication.as_str(), 512) {
        return Err(e);
    }
    if let Err(e) = validate_text("source scope", input.source_scope.as_str(), 512) {
        return Err(e);
    }
    if let Err(e) = validate_text("target subject", input.target_subject.as_str(), 512) {
        return Err(e);
    }
    if let Err(e) = validate_text("target API base", input.target_api_base.as_str(), 2048) {
        return Err(e);
    }
    if let Err(e) = validate_text("approver", input.reviewer.as_str(), 512) {
        return Err(e);
    }
    if let Err(e) = validate_text("actor subject", input.actor_subject.as_str(), 512) {
        return Err(e);
    }
    Ok(())
}

fn count_operation(cs: &Vec<ExternalAdminOperationContract>, op: ExternalAdminOperation) -> (n: usize)
    requires
        cs@.len() <= 15,
    ensures
        n == op_count(cs@, op),
{
    let mut n: usize = 0;
    let mut i: usize = 0;
    assert(cs@.take(0) =~= Seq::<ExternalAdminOperationContract>::empty());
    while i < cs.len()
        invariant
            i <= cs@.len(),
            cs@.len() <= 15,
            n <= i,
            n == op_count(cs@.take(i as int), op),
        decreases cs@.len() - i,
    {
        proof {
            assert(cs@.take(i + 1).drop_last() =~= cs@.take(i as int));
        }
        if cs[i].operation == op {
            n = n + 1;
        }
        i = i + 1;
    }
    assert(cs@.take(cs@.len() as int) =~= cs@);
    n
}

fn classified(cs: &Vec<ExternalAdminOperationContract>) -> (r: bool)
    ensures
        r == operations_classified(cs@),
{
    if cs.len() != 15 {
        return false;
    }
    let all = ExternalAdminOperation::all();
    let mut k: usize = 0;
    while k < 15
        invariant
            k <= 15,
            cs@.len() == 15,
            all@.len() == 15,
            forall|j: int| 0 <= j < 15 ==> #[trigger] all@[j] == ExternalAdminOperation::at_rank(j),
            forall|j: int| 0 <= j < k ==> op_count(cs@, #[trigger] ExternalAdminOperation::at_rank(j)) == 1,
        decreases 15 - k,
    {
        let op = all[k];
        if count_operation(cs, op) != 1 {
            return false;
        }
        k = k + 1;
    }
    assert forall|op: ExternalAdminOperation| #[trigger] op_count(cs@, op) == 1 by {
        lemma_operation_rank(op);
        assert(op_count(cs@, ExternalAdminOperation::at_rank(op.rank())) == 1);
    }
    true
}

fn check_contract(c: &ExternalAdminOperationContract) -> (r: Result<(), StoreError>)
    ensures
        refused_with(r, contract_rejection(*c)),
{
    match c.disposition {
        ExternalAdminDisposition::McLovingV1 => {
            match c.operation.admitted_contract() {
                None => {
                    return invalid("unsupported admin operation cannot claim a McLoving v1 mapping");
                },
                Some((method, endpoint, precondition, idempotency, _)) => {
                    if !opt_str_eq(&c.method, method) || !opt_str_eq(&c.endpoint, endpoint) || !opt_str_eq(
                        &c.precondition,
                        precondition,
                    ) || !opt_str_eq(&c.idempotency, idempotency) || !opt_str_eq(
                        &c.desired_state_schema,
                        "mcloving.public-api/v1",
                    ) || c.retirement_evidence_digest.is_some() {
                        return invalid("external admin operation does not match its canonical v1 contract");
                    }
                },
            }
        },
        ExternalAdminDisposition::OwnerRetired => {
            let zero_evidence = match &c.retirement_evidence_digest {
                Some(d) => is_zero_digest(d),
                None => false,
            };
            if c.method.is_some() || c.endpoint.is_some() || c.precondition.is_some() || c.idempotency.is_some()
                || c.desired_state_schema.is_some() || c.retirement_evidence_digest.is_none() || zero_evidence {
                return invalid("owner-retired admin operation requires only non-zero retirement evidence");
            }
        },
        ExternalAdminDisposition::Pending => {
            if c.method.is_some() || c.endpoint.is_some() || c.precondition.is_some() || c.idempotency.is_some()
                || c.desired_state_schema.is_some() || c.retirement_evidence_digest.is_some() {
                return invalid("pending admin operation cannot carry a target or retirement contract");
            }
        },
    }
    Ok(())
}

proof fn lemma_first_rejection_prefix(cs: Seq<ExternalAdminOperationContract>, n: int)
    requires
        0 <= n <= cs.len(),
        first_contract_rejection(cs.take(n)) is Some,
    ensures
        first_contract_rejection(cs) == first_contract_rejection(cs.take(n)),
    decreases cs.len() - n,
{
    if n < cs.len() {
        let m = n + 1;
        assert(cs.take(m).drop_last() =~= cs.take(n));
        lemma_first_rejection_prefix(cs, m);
    } else {
        assert(cs.take(n) =~= cs);
    }
}

fn check_contracts(cs: &Vec<ExternalAdminOperationContract>) -> (r: Result<(), StoreError>)
    ensures
        refused_with(r, first_contract_rejection(cs@)),
{
    let mut i: usize = 0;
    assert(cs@.take(0) =~= Seq::<ExternalAdminOperationContract>::empty());
    while i < cs.len()
        invariant
            i <= cs@.len(),
            first_contract_rejection(cs@.take(i as int)) is None,
        decreases cs@.len() - i,
    {
        proof {
            assert(cs@.take(i + 1).drop_last() =~= cs@.take(i as int));
            assert(cs@.take(i + 1).last() == cs@[i as int]);
        }
        if let Err(e) = check_contract(&cs[i]) {
            proof {
                lemma_first_rejection_prefix(cs@, i + 1);
            }
            return Err(e);
        }
        i = i + 1;
    }
    assert(cs@.take(cs@.len() as int) =~= cs@);
    Ok(())
}

/// Checks a client write against every rule that needs nothing from the
/// store, in a fixed order, and reports the first one it breaks.
pub fn validate_input(input: &ExternalAdminClientWrite) -> (r: Result<(), StoreError>)
    ensures
        refused_with(r, input_rejection(*input)),
{
    if input.generation <= 0 {
        return invalid("external admin client generation must be positive");
    }
    if let Err(e) = validate_texts(input) {
        return Err(e);
    }
    if !http_endpoint(input.source_endpoint.as_str()) || !http_endpoint(input.target_api_base.as_str()) {
        return invalid("source and target endpoints must be explicit HTTP(S) URLs");
    }
    if !str_eq(input.target_api_version.as_str(), "v1") {
        return invalid("external admin client target API version must be v1");
    }
    if input.observation_started_unix_ms <= 0 || input.observation_ended_unix_ms
        <= input.observation_started_unix_ms {
        return invalid("external admin client observation window is invalid");
    }
    if !classified(&input.operation_contracts) {
        return invalid("external admin client must classify every canonical write operation exactly once");
    }
    if let Err(e) = check_contracts(&input.operation_contracts) {
        return Err(e);
    }
    if is_zero_digest(&input.source_inventory_digest) || is_zero_digest(&input.positive_authorization_digest)
        || is_zero_digest(&input.negative_authorization_digest) || is_zero_digest(&input.convergence_digest)
        || is_zero_digest(&input.ordering_idempotency_digest) || is_zero_digest(
        &input.partial_failure_retry_digest,
    ) || is_zero_digest(&input.conflict_digest) {
        return invalid("external admin client evidence digests must be non-zero");
    }
    if let Some(d) = &input.rollback_evidence_digest {
        if is_zero_digest(d) {
            return invalid("external admin client rollback evidence digest must be non-zero");
        }
    }
    if input.rollback_from_generation.is_some() != input.rollback_evidence_digest.is_some() {
        return invalid("external admin client rollback fields must be supplied together");
    }
    Ok(())
}

/// Every count of a classified operation is at least the number of
/// positions holding it; two positions give at least two.
proof fn lemma_op_count_positions(cs: Seq<ExternalAdminOperationContract>, op: ExternalAdminOperation, i: int, j: int)
    requires
        0 <= i < cs.len(),
        0 <= j < cs.len(),
        cs[i].operation == op,
        cs[j].operation == op,
    ensures
        op_count(cs, op) >= 1,
        i != j ==> op_count(cs, op) >= 2,
    decreases cs.len(),
{
    let init = cs.drop_last();
    let last = cs.len() - 1;
    if i < last && j < last {
        lemma_op_count_positions(init, op, i, j);
    } else if i < last {
        lemma_op_count_positions(init, op, i, i);
    } else if j < last {
        lemma_op_count_positions(init, op, j, j);
    }
}

proof fn lemma_op_count_witness(cs: Seq<ExternalAdminOperationContract>, op: ExternalAdminOperation)
    requires
        op_count(cs, op) > 0,
    ensures
        exists|i: int| 0 <= i < cs.len() && (#[trigger] cs[i]).operation == op,
    decreases cs.len(),
{
    if cs.last().operation != op {
        lemma_op_count_witness(cs.drop_last(), op);
        let i = choose|i: int| 0 <= i < cs.drop_last().len() && (#[trigger] cs.drop_last()[i]).operation == op;
        assert(cs[i] == cs.drop_last()[i]);
    } else {
        assert(cs[cs.len() - 1].operation == op);
    }
}

/// The contract that classifies `op`.
pub open spec fn contract_for(cs: Seq<ExternalAdminOperationContract>, op: ExternalAdminOperation) -> ExternalAdminOperationContract {
    cs[choose|i: int| 0 <= i < cs.len() && (#[trigger] cs[i]).operation == op]
}

proof fn lemma_contract_for(cs: Seq<ExternalAdminOperationContract>, op: ExternalAdminOperation, i: int)
    requires
        op_count(cs, op) == 1,
        0 <= i < cs.len(),
        cs[i].operation == op,
    ensures
        contract_for(cs, op) == cs[i],
{
    let j = choose|j: int| 0 <= j < cs.len() && (#[trigger] cs[j]).operation == op;
    lemma_op_count_positions(cs, op, i, i);
    assert(0 <= j < cs.len() && cs[j].operation == op);
    lemma_op_count_positions(cs, op, i, j);
}

/// The operation names of the contracts in canonical order, each framed.
pub open spec fn binding_operations(cs: Seq<ExternalAdminOperationContract>, k: int) -> Seq<u8>
    decreases k,
{
    if k <= 0 {
        Seq::empty()
    } else {
        binding_operations(cs, k - 1) + framed(
            encode_utf8(contract_for(cs, ExternalAdminOperation::at_rank(k - 1)).operation.name()),
        )
    }
}

/// The bytes one contract contributes to the contract digest.
pub open spec fn contract_bytes(c: ExternalAdminOperationContract) -> Seq<u8> {
    framed(encode_utf8(c.operation.name())) + framed(encode_utf8(c.disposition.name())) + framed(
        opt_text_bytes(c.method),
    ) + framed(opt_text_bytes(c.endpoint)) + framed(opt_text_bytes(c.precondition)) + framed(
        opt_text_bytes(c.idempotency),
    ) + framed(opt_text_bytes(c.desired_state_schema)) + framed(opt_digest_bytes(c.retirement_evidence_digest))
}

/// The contracts in canonical order, each encoded.
pub open spec fn contract_section(cs: Seq<ExternalAdminOperationContract>, k: int) -> Seq<u8>
    decreases k,
{
    if k <= 0 {
        Seq::empty()
    } else {
        contract_section(cs, k - 1) + contract_bytes(contract_for(cs, ExternalAdminOperation::at_rank(k - 1)))
    }
}

/// The bytes hashed into the binding digest: who the client is, where it
/// reads and writes, and which operations it covers.
pub open spec fn binding_preimage(input: ExternalAdminClientWrite) -> Seq<u8> {
    framed(encode_utf8("mcloving-external-admin-client-binding-v1"@)) + framed(id_bytes(input.organization_id))
        + framed(id_bytes(input.project_id)) + framed(encode_utf8(input.client_id@)) + framed(
        input.source_inventory_digest@,
    ) + framed(encode_utf8(input.source_inventory_generation@)) + framed(encode_utf8(input.source_endpoint@))
        + framed(encode_utf8(input.source_caller@)) + framed(encode_utf8(input.source_authentication@)) + framed(
        encode_utf8(input.source_scope@),
    ) + framed(id_bytes(input.target_identity_id)) + framed(encode_utf8(input.target_subject@)) + framed(
        encode_utf8(input.target_api_base@),
    ) + framed(encode_utf8(input.target_api_version@)) + binding_operations(input.operation_contracts@, 15)
}

pub open spec fn binding_digest(input: ExternalAdminClientWrite) -> Seq<u8> {
    sha256_spec(binding_preimage(input))
}

/// The bytes hashed into the contract digest of one generation.
pub open spec fn contract_preimage(input: ExternalAdminClientWrite) -> Seq<u8> {
    framed(encode_utf8("mcloving-external-admin-client-v1"@)) + framed(binding_digest(input)) + framed(
        i64_be(input.generation),
    ) + framed(encode_utf8(input.authority.name())) + contract_section(input.operation_contracts@, 15) + framed(
        i64_be(input.observation_started_unix_ms),
    ) + framed(i64_be(input.observation_ended_unix_ms)) + framed(u64_be(input.source_writes_observed)) + framed(
        input.positive_authorization_digest@,
    ) + framed(input.negative_authorization_digest@) + framed(input.convergence_digest@) + framed(
        input.ordering_idempotency_digest@,
    ) + framed(input.partial_failure_retry_digest@) + framed(input.conflict_digest@) + framed(
        i64_be(
            match input.rollback_from_generation {
                Some(g) => g,
                None => 0,
            },
        ),
    ) + framed(opt_digest_bytes(input.rollback_evidence_digest)) + framed(encode_utf8(input.reviewer@))
}

pub open spec fn contract_digest(input: ExternalAdminClientWrite) -> Seq<u8> {
    sha256_spec(contract_preimage(input))
}

/// Index of the contract that classifies `op`.
fn find_operation(cs: &Vec<ExternalAdminOperationContract>, op: ExternalAdminOperation) -> (i: usize)
    requires
        op_count(cs@, op) == 1,
    ensures
        i < cs@.len(),
        cs@[i as int] == contract_for(cs@, op),
        cs@[i as int].operation == op,
{
    proof {
        lemma_op_count_witness(cs@, op);
    }
    let mut i: usize = 0;
    while i < cs.len()
        invariant
            i <= cs@.len(),
            op_count(cs@, op) == 1,
            exists|j: int| 0 <= j < cs@.len() && (#[trigger] cs@[j]).operation == op,
            forall|j: int| 0 <= j < i ==> (#[trigger] cs@[j]).operation != op,
        decreases cs@.len() - i,
    {
        if cs[i].operation == op {
            proof {
                lemma_contract_for(cs@, op, i as int);
            }
            return i;
        }
        i = i + 1;
    }
    proof {
        let j = choose|j: int| 0 <= j < cs@.len() && (#[trigger] cs@[j]).operation == op;
        assert(cs@[j].operation != op);
    }
    0
}

#[verifier::spinoff_prover]
#[verifier::rlimit(40)]
fn push_contract(msg: &mut Vec<u8>, c: &ExternalAdminOperationContract)
    ensures
        final(msg)@ == old(msg)@ + contract_bytes(*c),
{
    push_framed_str(msg, c.operation.as_str());
    push_framed_str(msg, c.disposition.as_str());
    push_framed_opt_str(msg, &c.method);
    push_framed_opt_str(msg, &c.endpoint);
    push_framed_opt_str(msg, &c.precondition);
    push_framed_opt_str(msg, &c.idempotency);
    push_framed_opt_str(msg, &c.desired_state_schema);
    push_framed_opt_digest(msg, &c.retirement_evidence_digest);
    assert(final(msg)@ =~= old(msg)@ + contract_bytes(*c));
}

/// Appends the canonical-order section of the contracts: only their
/// operation names when `names_only`, else each whole contract.
fn push_operations(msg: &mut Vec<u8>, cs: &Vec<ExternalAdminOperationContract>, names_only: bool)
    requires
        operations_classified(cs@),
    ensures
        names_only ==> final(msg)@ == old(msg)@ + binding_operations(cs@, 15),
        !names_only ==> final(msg)@ == old(msg)@ + contract_section(cs@, 15),
{
    let all = ExternalAdminOperation::all();
    let mut k: usize = 0;
    while k < 15
        invariant
            k <= 15,
            operations_classified(cs@),
            all@.len() == 15,
            forall|j: int| 0 <= j < 15 ==> #[trigger] all@[j] == ExternalAdminOperation::at_rank(j),
            names_only ==> msg@ == old(msg)@ + binding_operations(cs@, k as int),
            !names_only ==> msg@ == old(msg)@ + contract_section(cs@, k as int),
        decreases 15 - k,
    {
        let op = all[k];
        assert(op_count(cs@, op) == 1);
        let i = find_operation(cs, op);
        if names_only {
            push_framed_str(msg, cs[i].operation.as_str());
        } else {
            push_contract(msg, &cs[i]);
        }
        proof {
            assert(ExternalAdminOperation::at_rank((k + 1) - 1) == op);
        }
        k = k + 1;
    }
}

/// Digest of who an admin client is and what it covers; it does not change
/// when authority moves between the two systems.
pub fn compute_external_admin_client_binding_digest(input: &ExternalAdminClientWrite) -> (r: Result<[u8; 32], StoreError>)
    ensures
        r is Ok <==> input_rejection(*input) is None,
        r matches Ok(d) ==> d@ == binding_digest(*input),
        r matches Err(e) ==> e matches StoreError::InvalidAdminMigration(m) && input_rejection(*input) == Some(
            m@,
        ),
{
    if let Err(e) = validate_input(input) {
        return Err(e);
    }
    let mut msg: Vec<u8> = Vec::new();
    push_framed_str(&mut msg, "mcloving-external-admin-client-binding-v1");
    push_framed_id(&mut msg, input.organization_id);
    push_framed_id(&mut msg, input.project_id);
    push_framed_str(&mut msg, input.client_id.as_str());
    push_framed(&mut msg, &input.source_inventory_digest);
    push_framed_str(&mut msg, input.source_inventory_generation.as_str());
    push_framed_str(&mut msg, input.source_endpoint.as_str());
    push_framed_str(&mut msg, input.source_caller.as_str());
    push_framed_str(&mut msg, input.source_authentication.as_str());
    push_framed_str(&mut msg, input.source_scope.as_str());
    push_framed_id(&mut msg, input.target_identity_id);
    push_framed_str(&mut msg, input.target_subject.as_str());
    push_framed_str(&mut msg, input.target_api_base.as_str());
    push_framed_str(&mut msg, input.target_api_version.as_str());
    push_operations(&mut msg, &input.operation_contracts, true);
    assert(msg@ =~= binding_preimage(*input));
    Ok(sha256(msg.as_slice()))
}

/// Digest of one reviewed generation: its binding, authority, every
/// operation contract in canonical order, and the migration evidence.
#[verifier::rlimit(40)]
pub fn compute_external_admin_client_digest(input: &ExternalAdminClientWrite) -> (r: Result<[u8; 32], StoreError>)
    ensures
        r is Ok <==> input_rejection(*input) is None,
        r matches Ok(d) ==> d@ == contract_digest(*input),
        r matches Err(e) ==> e matches StoreError::InvalidAdminMigration(m) && input_rejection(*input) == Some(
            m@,
        ),
{
    if let Err(e) = validate_input(input) {
        return Err(e);
    }
    let binding = match compute_external_admin_client_binding_digest(input) {
        Ok(d) => d,
        Err(e) => return Err(e),
    };
    let mut msg: Vec<u8> = Vec::new();
    push_framed_str(&mut msg, "mcloving-external-admin-client-v1");
    push_framed(&mut msg, &binding);
    push_framed_i64(&mut msg, input.generation);
    push_framed_str(&mut msg, input.authority.as_str());
    push_operations(&mut msg, &input.operation_contracts, false);
    push_framed_i64(&mut msg, input.observation_started_unix_ms);
    push_framed_i64(&mut msg, input.observation_ended_unix_ms);
    push_framed_u64(&mut msg, input.source_writes_observed);
    push_framed(&mut msg, &input.positive_authorization_digest);
    push_framed(&mut msg, &input.negative_authorization_digest);
    push_framed(&mut msg, &input.convergence_digest);
    push_framed(&mut msg, &input.ordering_idempotency_digest);
    push_framed(&mut msg, &input.partial_failure_retry_digest);
    push_framed(&mut msg, &input.conflict_digest);
    let rollback_from: i64 = match input.rollback_from_generation {
        Some(g) => g,
        None => 0,
    };
    push_framed_i64(&mut msg, rollback_from);
    push_framed_opt_digest(&mut msg, &input.rollback_evidence_digest);
    push_framed_str(&mut msg, input.reviewer.as_str());
    assert(msg@ =~= contract_preimage(*input));
    Ok(sha256(msg.as_slice()))
}

/// Why an authority transition from the current stored generation (its
/// number and authority name) to the written one is refused, if it is.
pub open spec fn transition_rejection(input: ExternalAdminClientWrite, current: Option<(i64, Seq<char>)>) -> Option<Seq<char>> {
    match current {
        None => match input.authority {
            ExternalAdminAuthority::JenkinsSource => if input.rollback_from_generation is Some
                || input.rollback_evidence_digest is Some {
                Some("initial Jenkins admin authority cannot be a rollback"@)
            } else {
                None
            },
            ExternalAdminAuthority::McLovingTarget => Some(
                "McLoving admin authority requires a retained Jenkins source generation"@,
            ),
        },
        Some((generation, authority)) => if input.authority == ExternalAdminAuthority::McLovingTarget && authority
            == ExternalAdminAuthority::JenkinsSource.name() {
            if input.source_writes_observed != 0 {
                Some("McLoving admin authority requires zero residual Jenkins writes"@)
            } else if exists|i: int|
                0 <= i < input.operation_contracts@.len() && (#[trigger] input.operation_contracts@[i]).disposition
                    == ExternalAdminDisposition::Pending {
                Some("McLoving admin authority requires every operation migrated or owner-retired"@)
            } else if input.rollback_from_generation is Some || input.rollback_evidence_digest is Some {
                Some("McLoving admin cutover cannot carry rollback fields"@)
            } else {
                None
            }
        } else if input.authority == ExternalAdminAuthority::JenkinsSource && authority
            == ExternalAdminAuthority::McLovingTarget.name() {
            if input.rollback_from_generation != Some(generation) || input.rollback_evidence_digest is None {
                Some("Jenkins admin restoration must bind the immediately preceding target generation"@)
            } else {
                None
            }
        } else {
            Some("external admin client authority must alternate"@)
        },
    }
}

/// The current generation as the transition rule sees it.
pub open spec fn current_view(current: Option<(i64, String, bool)>) -> Option<(i64, Seq<char>)> {
    match current {
        Some(c) => Some((c.0, c.1@)),
        None => None,
    }
}

fn any_pending(cs: &Vec<ExternalAdminOperationContract>) -> (r: bool)
    ensures
        r == exists|i: int| 0 <= i < cs@.len() && (#[trigger] cs@[i]).disposition == ExternalAdminDisposition::Pending,
{
    let mut i: usize = 0;
    while i < cs.len()
        invariant
            i <= cs@.len(),
            forall|j: int| 0 <= j < i ==> (#[trigger] cs@[j]).disposition != ExternalAdminDisposition::Pending,
        decreases cs@.len() - i,
    {
        if cs[i].disposition == ExternalAdminDisposition::Pending {
            return true;
        }
        i = i + 1;
    }
    false
}

/// Checks that the written authority alternates with the stored one:
/// Jenkins first, then McLoving after a quiet observation window with every
/// operation migrated or retired, then Jenkins again only as a rollback of
/// the generation just before.
pub fn validate_transition(input: &ExternalAdminClientWrite, current: &Option<(i64, String, bool)>) -> (r: Result<(), StoreError>)
    ensures
        refused_with(r, transition_rejection(*input, current_view(*current))),
{
    match current {
        None => match input.authority {
            ExternalAdminAuthority::JenkinsSource => {
                if input.rollback_from_generation.is_some() || input.rollback_evidence_digest.is_some() {
                    return invalid("initial Jenkins admin authority cannot be a rollback");
                }
                Ok(())
            },
            ExternalAdminAuthority::McLovingTarget => {
                invalid("McLoving admin authority requires a retained Jenkins source generation")
            },
        },
        Some((generation, authority, _)) => {
            if input.authority == ExternalAdminAuthority::McLovingTarget && str_eq(
                authority.as_str(),
                ExternalAdminAuthority::JenkinsSource.as_str(),
            ) {
                if input.source_writes_observed != 0 {
                    return invalid("McLoving admin authority requires zero residual Jenkins writes");
                }
                if any_pending(&input.operation_contracts) {
                    return invalid("McLoving admin authority requires every operation migrated or owner-retired");
                }
                if input.rollback_from_generation.is_some() || input.rollback_evidence_digest.is_some() {
                    return invalid("McLoving admin cutover cannot carry rollback fields");
                }
                Ok(())
            } else if input.authority == ExternalAdminAuthority::JenkinsSource && str_eq(
                authority.as_str(),
                ExternalAdminAuthority::McLovingTarget.as_str(),
            ) {
                let binds_previous = match input.rollback_from_generation {
                    Some(g) => g == *generation,
                    None => false,
                };
                if !binds_previous || input.rollback_evidence_digest.is_none() {
                    return invalid("Jenkins admin restoration must bind the immediately preceding target generation");
                }
                Ok(())
            } else {
                invalid("external admin client authority must alternate")
            }
        },
    }
}

/// The stored generation moved since the writer read it.
pub open spec fn install_conflict(input: ExternalAdminClientWrite, current: Option<(i64, String, bool)>) -> bool {
    match current {
        Some(c) => input.expected_current_generation != Some(c.0),
        None => input.expected_current_generation is Some,
    }
}

/// Why a write is refused against the stored current generation (number,
/// authority name, and whether its binding digest equals the written one).
pub open spec fn install_rejection(input: ExternalAdminClientWrite, current: Option<(i64, String, bool)>) -> Option<Seq<char>> {
    match current {
        Some(c) => if !c.2 {
            Some("external admin client binding changed across an authority transition"@)
        } else if c.0 == i64::MAX {
            Some("external admin client generation overflow"@)
        } else if input.generation != c.0 + 1 {
            Some("external admin client generation must advance by exactly one"@)
        } else {
            transition_rejection(input, current_view(current))
        },
        None => if input.generation != 1 {
            Some("external admin client generation must advance by exactly one"@)
        } else {
            transition_rejection(input, current_view(current))
        },
    }
}

/// Decides whether a checked write may become the next generation, given
/// what the store holds for the client now.
pub fn plan_external_admin_install(input: &ExternalAdminClientWrite, current: &Option<(i64, String, bool)>) -> (r: Result<(), StoreError>)
    ensures
        install_conflict(*input, *current) ==> (r matches Err(e) && e is AdminMigrationConflict),
        !install_conflict(*input, *current) ==> refused_with(r, install_rejection(*input, *current)),
{
    let current_generation = match current {
        Some(c) => Some(c.0),
        None => None,
    };
    if current_generation != input.expected_current_generation {
        return Err(StoreError::AdminMigrationConflict("external admin client current generation changed".to_owned()));
    }
    let required: i64 = match current {
        Some(c) => {
            if !c.2 {
                return invalid("external admin client binding changed across an authority transition");
            }
            match c.0.checked_add(1) {
                Some(g) => g,
                None => return invalid("external admin client generation overflow"),
            }
        },
        None => 1,
    };
    if input.generation != required {
        return invalid("external admin client generation must advance by exactly one");
    }
    validate_transition(input, current)
}

/// The checks made on a write before the store is touched; on success the
/// binding and contract digests that the write is stored under.
pub fn check_external_admin_client_write(input: &ExternalAdminClientWrite) -> (r: Result<([u8; 32], [u8; 32]), StoreError>)
    ensures
        r matches Ok(d) ==> input_rejection(*input) is None && d.0@ == binding_digest(*input) && d.1@
            == contract_digest(*input) && input.expected_contract_digest@ == contract_digest(*input)
            && input.source_writes_observed <= i64::MAX,
        r is Err <==> (input_rejection(*input) is Some || input.expected_contract_digest@ != contract_digest(*input)
            || input.source_writes_observed > i64::MAX),
        r matches Err(e) ==> e matches StoreError::InvalidAdminMigration(m) && (if input_rejection(*input) is Some {
            input_rejection(*input) == Some(m@)
        } else if input.expected_contract_digest@ != contract_digest(*input) {
            m@ == "external admin client digest does not match canonical content"@
        } else {
            m@ == "source write count overflow"@
        }),
{
    let binding = match compute_external_admin_client_binding_digest(input) {
        Ok(d) => d,
        Err(e) => return Err(e),
    };
    let contract = match compute_external_admin_client_digest(input) {
        Ok(d) => d,
        Err(e) => return Err(e),
    };
    if !digest_eq(&contract, &input.expected_contract_digest) {
        return Err(
            StoreError::InvalidAdminMigration("external admin client digest does not match canonical content".to_owned()),
        );
    }
    if input.source_writes_observed > 0x7fff_ffff_ffff_ffffu64 {
        return Err(StoreError::InvalidAdminMigration("source write count overflow".to_owned()));
    }
    Ok((binding, contract))
}

/// The action the McLoving target must hold for an operation contract,
/// when the contract maps to McLoving v1.
pub open spec fn contract_action(c: ExternalAdminOperationContract) -> Option<Action> {
    if c.disposition == ExternalAdminDisposition::McLovingV1 {
        match c.operation.admitted() {
            Some(t) => Some(t.4),
            None => None,
        }
    } else {
        None
    }
}

pub open spec fn action_required(cs: Seq<ExternalAdminOperationContract>, a: Action) -> bool {
    exists|i: int| 0 <= i < cs.len() && contract_action(#[trigger] cs[i]) == Some(a)
}

/// The actions an admitted contract can require, in action order.
pub open spec fn admitted_actions() -> Seq<Action> {
    seq![Action::BuildTrigger, Action::BuildCancel, Action::ProjectConfigure, Action::ApprovalAct, Action::BuildRetry]
}

fn requires_action(cs: &Vec<ExternalAdminOperationContract>, a: Action) -> (r: bool)
    ensures
        r == action_required(cs@, a),
{
    let mut i: usize = 0;
    while i < cs.len()
        invariant
            i <= cs@.len(),
            forall|j: int| 0 <= j < i ==> contract_action(#[trigger] cs@[j]) != Some(a),
        decreases cs@.len() - i,
    {
        let c = &cs[i];
        if c.disposition == ExternalAdminDisposition::McLovingV1 {
            if let Some(t) = c.operation.admitted_contract() {
                if t.4 == a {
                    return true;
                }
            }
        }
        i = i + 1;
    }
    false
}

/// The distinct actions that the McLoving target identity must be
/// authorized for, one per McLoving v1 contract's operation, in action order.
pub fn required_admin_actions(input: &ExternalAdminClientWrite) -> (r: Vec<Action>)
    ensures
        r@ == admitted_actions().filter(|a: Action| action_required(input.operation_contracts@, a)),
{
    let candidates = vec![
        Action::BuildTrigger,
        Action::BuildCancel,
        Action::ProjectConfigure,
        Action::ApprovalAct,
        Action::BuildRetry,
    ];
    let ghost pred = |a: Action| action_required(input.operation_contracts@, a);
    let mut r: Vec<Action> = Vec::new();
    let mut k: usize = 0;
    assert(candidates@ =~= admitted_actions());
    while k < candidates.len()
        invariant
            k <= candidates@.len(),
            candidates@ == admitted_actions(),
            pred == (|a: Action| action_required(input.operation_contracts@, a)),
            r@ == candidates@.take(k as int).filter(pred),
        decreases candidates@.len() - k,
    {
        let a = candidates[k];
        proof {
            assert(candidates@.take(k + 1).drop_last() =~= candidates@.take(k as int));
            reveal(Seq::filter);
            assert(candidates@.take(k + 1).last() == a);
        }
        if requires_action(&input.operation_contracts, a) {
            r.push(a);
        }
        k = k + 1;
    }
    assert(candidates@.take(candidates@.len() as int) =~= candidates@);
    r
}

/// Name of the audit action recorded for an installed generation.
pub fn admin_audit_action(authority: ExternalAdminAuthority, generation: i64) -> (s: &'static str)
    ensures
        s@ == (match authority {
            ExternalAdminAuthority::JenkinsSource => if generation == 1 {
                "external_admin_client.registered"@
            } else {
                "external_admin_client.rolled_back"@
            },
            ExternalAdminAuthority::McLovingTarget => "external_admin_client.cut_over"@,
        }),
{
    match authority {
        ExternalAdminAuthority::JenkinsSource => if generation == 1 {
            "external_admin_client.registered"
        } else {
            "external_admin_client.rolled_back"
        },
        ExternalAdminAuthority::McLovingTarget => "external_admin_client.cut_over",
    }
}

proof fn lemma_authority_names_differ()
    ensures
        ExternalAdminAuthority::JenkinsSource.name() != ExternalAdminAuthority::McLovingTarget.name(),
{
    reveal_strlit("jenkins_source");
    reveal_strlit("mcloving_target");
    assert("jenkins_source"@.len() == 14);
    assert("mcloving_target"@.len() == 15);
}

/// Admin authority alternates: the first generation is Jenkins, and every
/// accepted generation after it names the other system than the current one.
pub proof fn law_admin_authority_alternates(input: ExternalAdminClientWrite, current: Option<(i64, Seq<char>)>)
    requires
        transition_rejection(input, current) is None,
    ensures
        current is None ==> input.authority == ExternalAdminAuthority::JenkinsSource,
        current matches Some(c) ==> c.1 != input.authority.name() && (c.1 == ExternalAdminAuthority::JenkinsSource.name()
            || c.1 == ExternalAdminAuthority::McLovingTarget.name()),
{
    lemma_authority_names_differ();
}

/// Cutting over to McLoving needs a quiet Jenkins: no residual writes were
/// observed and no operation is still pending.
pub proof fn law_admin_cutover_requires_quiescence(input: ExternalAdminClientWrite, generation: i64, authority: Seq<char>)
    requires
        transition_rejection(input, Some((generation, authority))) is None,
        input.authority == ExternalAdminAuthority::McLovingTarget,
    ensures
        input.source_writes_observed == 0,
        forall|i: int| 0 <= i < input.operation_contracts@.len() ==> (#[trigger] input.operation_contracts@[i]).disposition
            != ExternalAdminDisposition::Pending,
        input.rollback_from_generation is None && input.rollback_evidence_digest is None,
{
    lemma_authority_names_differ();
}

/// Returning authority to Jenkins is a rollback of exactly the generation
/// before it, with its own evidence.
pub proof fn law_admin_rollback_binds_previous_generation(input: ExternalAdminClientWrite, generation: i64, authority: Seq<char>)
    requires
        transition_rejection(input, Some((generation, authority))) is None,
        input.authority == ExternalAdminAuthority::JenkinsSource,
    ensures
        input.rollback_from_generation == Some(generation),
        input.rollback_evidence_digest is Some,
{
}

/// An accepted write is always the generation right after the stored one.
pub proof fn law_admin_generations_advance_by_one(input: ExternalAdminClientWrite, current: Option<(i64, String, bool)>)
    requires
        !install_conflict(input, current),
        install_rejection(input, current) is None,
    ensures
        current matches Some(c) ==> input.generation == c.0 + 1,
        current is None ==> input.generation == 1,
{
}

/// The binding digest sees which operations are covered but not how each
/// is handled: two classified writes that agree on the binding fields have
/// one binding digest, whatever their dispositions and authority.
pub proof fn law_admin_binding_ignores_dispositions(a: ExternalAdminClientWrite, b: ExternalAdminClientWrite)
    requires
        operations_classified(a.operation_contracts@),
        operations_classified(b.operation_contracts@),
        a.organization_id == b.organization_id,
        a.project_id == b.project_id,
        a.client_id@ == b.client_id@,
        a.source_inventory_digest@ == b.source_inventory_digest@,
        a.source_inventory_generation@ == b.source_inventory_generation@,
        a.source_endpoint@ == b.source_endpoint@,
        a.source_caller@ == b.source_caller@,
        a.source_authentication@ == b.source_authentication@,
        a.source_scope@ == b.source_scope@,
        a.target_identity_id == b.target_identity_id,
        a.target_subject@ == b.target_subject@,
        a.target_api_base@ == b.target_api_base@,
        a.target_api_version@ == b.target_api_version@,
    ensures
        binding_digest(a) == binding_digest(b),
{
    let xa = a.operation_contracts@;
    let xb = b.operation_contracts@;
    assert forall|k: int| 0 <= k <= 15 implies #[trigger] binding_operations(xa, k) == binding_operations(xb, k) by {
        lemma_binding_operations_canonical(xa, k);
        lemma_binding_operations_canonical(xb, k);
    }
    assert(binding_preimage(a) =~= binding_preimage(b));
}

proof fn lemma_contract_for_classified(cs: Seq<ExternalAdminOperationContract>, op: ExternalAdminOperation)
    requires
        operations_classified(cs),
    ensures
        contract_for(cs, op).operation == op,
        cs.contains(contract_for(cs, op)),
{
    assert(op_count(cs, op) == 1);
    lemma_op_count_witness(cs, op);
    let i = choose|i: int| 0 <= i < cs.len() && (#[trigger] cs[i]).operation == op;
    lemma_contract_for(cs, op, i);
}

proof fn lemma_binding_operations_canonical(cs: Seq<ExternalAdminOperationContract>, k: int)
    requires
        operations_classified(cs),
        0 <= k <= 15,
    ensures
        binding_operations(cs, k) == binding_operations_of_rank(k),
    decreases k,
{
    if k > 0 {
        lemma_binding_operations_canonical(cs, k - 1);
        lemma_contract_for_classified(cs, ExternalAdminOperation::at_rank(k - 1));
    }
}

/// The framed names of the first `k` operations in canonical order.
pub open spec fn binding_operations_of_rank(k: int) -> Seq<u8>
    decreases k,
{
    if k <= 0 {
        Seq::empty()
    } else {
        binding_operations_of_rank(k - 1) + framed(encode_utf8(ExternalAdminOperation::at_rank(k - 1).name()))
    }
}

/// The order in which contracts are listed does not matter: two classified
/// lists with the same contracts give one contract section, so one digest.
pub proof fn law_admin_contract_order_irrelevant(a: ExternalAdminClientWrite, b: ExternalAdminClientWrite)
    requires
        operations_classified(a.operation_contracts@),
        a.operation_contracts@.to_multiset() == b.operation_contracts@.to_multiset(),
        a.operation_contracts@.len() == b.operation_contracts@.len(),
        operations_classified(b.operation_contracts@),
        binding_digest(a) == binding_digest(b),
        a.generation == b.generation,
        a.authority == b.authority,
        a.observation_started_unix_ms == b.observation_started_unix_ms,
        a.observation_ended_unix_ms == b.observation_ended_unix_ms,
        a.source_writes_observed == b.source_writes_observed,
        a.positive_authorization_digest@ == b.positive_authorization_digest@,
        a.negative_authorization_digest@ == b.negative_authorization_digest@,
        a.convergence_digest@ == b.convergence_digest@,
        a.ordering_idempotency_digest@ == b.ordering_idempotency_digest@,
        a.partial_failure_retry_digest@ == b.partial_failure_retry_digest@,
        a.conflict_digest@ == b.conflict_digest@,
        a.rollback_from_generation == b.rollback_from_generation,
        opt_digest_bytes(a.rollback_evidence_digest) == opt_digest_bytes(b.rollback_evidence_digest),
        a.reviewer@ == b.reviewer@,
    ensures
        contract_digest(a) == contract_digest(b),
{
    let xa = a.operation_contracts@;
    let xb = b.operation_contracts@;
    assert forall|op: ExternalAdminOperation| #[trigger] contract_for(xa, op) == contract_for(xb, op) by {
        lemma_contract_for_classified(xb, op);
        let c = contract_for(xb, op);
        assert(xb.to_multiset().count(c) > 0) by {
            vstd::seq_lib::to_multiset_contains(xb, c);
        }
        assert(xa.contains(c)) by {
            vstd::seq_lib::to_multiset_contains(xa, c);
        }
        let i = choose|i: int| 0 <= i < xa.len() && xa[i] == c;
        lemma_contract_for(xa, op, i);
    }
    assert forall|k: int| 0 <= k <= 15 implies #[trigger] contract_section(xa, k) == contract_section(xb, k) by {
        lemma_contract_section_eq(xa, xb, k);
    }
    assert(contract_preimage(a) =~= contract_preimage(b));
}

proof fn lemma_contract_section_eq(xa: Seq<ExternalAdminOperationContract>, xb: Seq<ExternalAdminOperationContract>, k: int)
    requires
        forall|op: ExternalAdminOperation| #[trigger] contract_for(xa, op) == contract_for(xb, op),
    ensures
        contract_section(xa, k) == contract_section(xb, k),
    decreases k,
{
    if k > 0 {
        lemma_contract_section_eq(xa, xb, k - 1);
        assert(contract_for(xa, ExternalAdminOperation::at_rank(k - 1)) == contract_for(
            xb,
            ExternalAdminOperation::at_rank(k - 1),
        ));
    }
}

/// Why the stored target identity, by its lifecycle state where one was
/// found under the written id and subject, cannot take the write.
pub open spec fn target_identity_rejection(input: ExternalAdminClientWrite, lifecycle: Option<Seq<char>>) -> Option<Seq<char>> {
    match lifecycle {
        None => Some("external admin client target identity is absent or substituted"@),
        Some(state) => if input.authority is McLovingTarget && state != "active"@ {
            Some("external admin client target identity is inactive"@)
        } else {
            None
        },
    }
}

pub fn check_target_identity(input: &ExternalAdminClientWrite, lifecycle: Option<&str>) -> (r: Result<(), StoreError>)
    ensures
        refused_with(
            r,
            target_identity_rejection(
                *input,
                match lifecycle {
                    Some(s) => Some(s@),
                    None => None,
                },
            ),
        ),
{
    match lifecycle {
        None => invalid("external admin client target identity is absent or substituted"),
        Some(state) => if matches!(input.authority, ExternalAdminAuthority::McLovingTarget) && !str_eq(state, "active") {
            invalid("external admin client target identity is inactive")
        } else {
            Ok(())
        },
    }
}

pub open spec fn denied_authority_message(a: Action) -> Seq<char> {
    "external admin client target identity lacks required "@ + a.name() + " authority"@
}

/// Why the McLoving target identity, as `principal`, cannot take over: the
/// first required action it may not take on the project.
pub open spec fn target_authority_rejection(input: ExternalAdminClientWrite, principal: Principal) -> Option<Seq<char>> {
    match first_denied(
        principal,
        input.organization_id,
        input.project_id,
        admitted_actions().filter(|a: Action| action_required(input.operation_contracts@, a)),
    ) {
        Some(a) => Some(denied_authority_message(a)),
        None => None,
    }
}

pub fn check_target_authority(input: &ExternalAdminClientWrite, principal: &Principal) -> (r: Result<(), StoreError>)
    ensures
        refused_with(r, target_authority_rejection(*input, *principal)),
{
    let actions = required_admin_actions(input);
    match first_denied_action(principal, input.organization_id, input.project_id, &actions) {
        None => Ok(()),
        Some(a) => {
            let head = concat_str("external admin client target identity lacks required ", a.as_str());
            let message = concat_str(head.as_str(), " authority");
            assert(message@ =~= denied_authority_message(a));
            Err(StoreError::InvalidAdminMigration(message))
        },
    }
}

} // verus!
