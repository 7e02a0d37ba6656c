//! Verified controller-store rules: authorization, DAG contracts, audit
//! chains, migration contracts, discovery evaluation and identity canon.
pub mod admin_migration;
pub mod attempts;
pub mod audit;
pub mod authorization_mapping;
pub mod authz;
pub mod consumer_migration;
pub mod controller;
pub mod dag;
pub mod dag_progress;
pub mod discovery;
pub mod encoding;
pub mod identity;
pub mod lifecycle;
pub mod migration;
pub mod operations;
pub mod order;
pub mod redaction;
pub mod text;

use vstd::prelude::*;

use crate::encoding::{format_uuid, uuid_text};
use crate::text::{concat_str, int_decimal, push_i64_decimal};

verus! {

/// Controller-store failure. Database failures are reported by the caller
/// that talks to the database; every other failure is decided here.
#[derive(Clone, Debug, PartialEq, Eq)]
pub enum StoreError {
    IncompleteAdmission,
    CorruptLogDigest { attempt_id: u128, sequence: i64 },
    InvalidEffectPayload(String),
    InvalidObjectRecord(String),
    InvalidRecoveryOperation(String),
    InvalidAgentSession,
    InvalidTrustPool,
    InvalidDag(String),
    IdempotencyConflict(String),
    InvalidSecurityOperation(String),
    SecurityConflict(String),
    InvalidAuditOperation(String),
    InvalidTestResult(String),
    InvalidProductOperation(String),
    ProductConflict(String),
    InvalidPipelineState(String),
    PipelineStateConflict(String),
    PipelineDisabled { pipeline_id: u128, generation: i64 },
    InvalidTriggerIngress(String),
    TriggerIngressConflict(String),
    TriggerPaused { trigger_id: u128, generation: i64 },
    InvalidStateTransfer(String),
    StateTransferConflict(String),
    InvalidIdentityOperation(String),
    InvalidRuntimeConfiguration(String),
    IdentityConflict(String),
    InvalidAuthorizationOperation(String),
    AuthorizationConflict(String),
    InvalidConsumerMigration(String),
    ConsumerMigrationConflict(String),
    InvalidAdminMigration(String),
    AdminMigrationConflict(String),
    InvalidDiscovery(String),
    DiscoveryConflict(String),
    DiscoveryQuiesced { parent_id: u128, generation: i64 },
    CorruptAuditChain { organization_id: u128, sequence: i64 },
}

impl StoreError {
    /// The text a failure reads as.
    pub open spec fn text(self) -> Seq<char> {
        match self {
            StoreError::IncompleteAdmission => "idempotent build exists without its initial node or attempt"@,
            StoreError::InvalidEffectPayload(m) => "invalid durable effect payload: "@ + m@,
            StoreError::InvalidObjectRecord(m) => "invalid durable object record: "@ + m@,
            StoreError::InvalidRecoveryOperation(m) => "invalid recovery operation: "@ + m@,
            StoreError::InvalidAgentSession => "invalid agent session authority"@,
            StoreError::InvalidTrustPool => "required agent trust pool must be non-empty"@,
            StoreError::InvalidDag(m) => "invalid pipeline DAG: "@ + m@,
            StoreError::IdempotencyConflict(m) => "idempotency key conflict: "@ + m@,
            StoreError::InvalidSecurityOperation(m) => "invalid security operation: "@ + m@,
            StoreError::SecurityConflict(m) => "security operation conflict: "@ + m@,
            StoreError::InvalidAuditOperation(m) => "invalid audit operation: "@ + m@,
            StoreError::InvalidTestResult(m) => "invalid normalized test result: "@ + m@,
            StoreError::InvalidProductOperation(m) => "invalid product operation: "@ + m@,
            StoreError::ProductConflict(m) => "product catalog conflict: "@ + m@,
            StoreError::InvalidPipelineState(m) => "invalid pipeline operational-state operation: "@ + m@,
            StoreError::PipelineStateConflict(m) => "pipeline operational-state conflict: "@ + m@,
            StoreError::InvalidTriggerIngress(m) => "invalid trigger ingress operation: "@ + m@,
            StoreError::TriggerIngressConflict(m) => "trigger ingress conflict: "@ + m@,
            StoreError::InvalidStateTransfer(m) => "invalid state transfer: "@ + m@,
            StoreError::StateTransferConflict(m) => "state-transfer conflict: "@ + m@,
            StoreError::InvalidIdentityOperation(m) => "invalid identity operation: "@ + m@,
            StoreError::InvalidRuntimeConfiguration(m) => "invalid runtime database configuration: "@ + m@,
            StoreError::IdentityConflict(m) => "identity operation conflict: "@ + m@,
            StoreError::InvalidAuthorizationOperation(m) => "invalid authorization operation: "@ + m@,
            StoreError::AuthorizationConflict(m) => "authorization operation conflict: "@ + m@,
            StoreError::InvalidConsumerMigration(m) => "invalid external read consumer migration: "@ + m@,
            StoreError::ConsumerMigrationConflict(m) => "external read consumer migration conflict: "@ + m@,
            StoreError::InvalidAdminMigration(m) => "invalid external admin client migration: "@ + m@,
            StoreError::AdminMigrationConflict(m) => "external admin client migration conflict: "@ + m@,
            StoreError::InvalidDiscovery(m) => "invalid discovery operation: "@ + m@,
            StoreError::DiscoveryConflict(m) => "discovery operation conflict: "@ + m@,
            StoreError::CorruptLogDigest { attempt_id, sequence } => "attempt "@ + uuid_text(attempt_id)
                + " log sequence "@ + int_decimal(sequence as int) + " has a corrupt digest"@,
            StoreError::PipelineDisabled { pipeline_id, generation } => "pipeline "@ + uuid_text(pipeline_id)
                + " is disabled at operational generation "@ + int_decimal(generation as int),
            StoreError::TriggerPaused { trigger_id, generation } => "trigger "@ + uuid_text(trigger_id)
                + " is paused at generation "@ + int_decimal(generation as int),
            StoreError::DiscoveryQuiesced { parent_id, generation } => "discovery parent "@ + uuid_text(parent_id)
                + " is quiesced at generation "@ + int_decimal(generation as int),
            StoreError::CorruptAuditChain { organization_id, sequence } => "audit chain for tenant "@
                + uuid_text(organization_id) + " is corrupt at sequence "@ + int_decimal(sequence as int),
        }
    }

    /// The failure's text, as its display reads.
    pub fn describe(&self) -> (s: String)
        ensures
            s@ == self.text(),
    {
        proof {
            reveal_strlit("");
        }
        match self {
            StoreError::IncompleteAdmission => "idempotent build exists without its initial node or attempt".to_owned(),
            StoreError::InvalidEffectPayload(m) => concat_str("invalid durable effect payload: ", m.as_str()),
            StoreError::InvalidObjectRecord(m) => concat_str("invalid durable object record: ", m.as_str()),
            StoreError::InvalidRecoveryOperation(m) => concat_str("invalid recovery operation: ", m.as_str()),
            StoreError::InvalidAgentSession => "invalid agent session authority".to_owned(),
            StoreError::InvalidTrustPool => "required agent trust pool must be non-empty".to_owned(),
            StoreError::InvalidDag(m) => concat_str("invalid pipeline DAG: ", m.as_str()),
            StoreError::IdempotencyConflict(m) => concat_str("idempotency key conflict: ", m.as_str()),
            StoreError::InvalidSecurityOperation(m) => concat_str("invalid security operation: ", m.as_str()),
            StoreError::SecurityConflict(m) => concat_str("security operation conflict: ", m.as_str()),
            StoreError::InvalidAuditOperation(m) => concat_str("invalid audit operation: ", m.as_str()),
            StoreError::InvalidTestResult(m) => concat_str("invalid normalized test result: ", m.as_str()),
            StoreError::InvalidProductOperation(m) => concat_str("invalid product operation: ", m.as_str()),
            StoreError::ProductConflict(m) => concat_str("product catalog conflict: ", m.as_str()),
            StoreError::InvalidPipelineState(m) => concat_str("invalid pipeline operational-state operation: ", m.as_str()),
            StoreError::PipelineStateConflict(m) => concat_str("pipeline operational-state conflict: ", m.as_str()),
            StoreError::InvalidTriggerIngress(m) => concat_str("invalid trigger ingress operation: ", m.as_str()),
            StoreError::TriggerIngressConflict(m) => concat_str("trigger ingress conflict: ", m.as_str()),
            StoreError::InvalidStateTransfer(m) => concat_str("invalid state transfer: ", m.as_str()),
            StoreError::StateTransferConflict(m) => concat_str("state-transfer conflict: ", m.as_str()),
            StoreError::InvalidIdentityOperation(m) => concat_str("invalid identity operation: ", m.as_str()),
            StoreError::InvalidRuntimeConfiguration(m) => concat_str("invalid runtime database configuration: ", m.as_str()),
            StoreError::IdentityConflict(m) => concat_str("identity operation conflict: ", m.as_str()),
            StoreError::InvalidAuthorizationOperation(m) => concat_str("invalid authorization operation: ", m.as_str()),
            StoreError::AuthorizationConflict(m) => concat_str("authorization operation conflict: ", m.as_str()),
            StoreError::InvalidConsumerMigration(m) => concat_str("invalid external read consumer migration: ", m.as_str()),
            StoreError::ConsumerMigrationConflict(m) => concat_str("external read consumer migration conflict: ", m.as_str()),
            StoreError::InvalidAdminMigration(m) => concat_str("invalid external admin client migration: ", m.as_str()),
            StoreError::AdminMigrationConflict(m) => concat_str("external admin client migration conflict: ", m.as_str()),
            StoreError::InvalidDiscovery(m) => concat_str("invalid discovery operation: ", m.as_str()),
            StoreError::DiscoveryConflict(m) => concat_str("discovery operation conflict: ", m.as_str()),
            StoreError::CorruptLogDigest { attempt_id, sequence } => {
                id_number_text("attempt ", *attempt_id, " log sequence ", *sequence, " has a corrupt digest")
            },
            StoreError::PipelineDisabled { pipeline_id, generation } => {
                id_number_text("pipeline ", *pipeline_id, " is disabled at operational generation ", *generation, "")
            },
            StoreError::TriggerPaused { trigger_id, generation } => {
                id_number_text("trigger ", *trigger_id, " is paused at generation ", *generation, "")
            },
            StoreError::DiscoveryQuiesced { parent_id, generation } => {
                id_number_text("discovery parent ", *parent_id, " is quiesced at generation ", *generation, "")
            },
            StoreError::CorruptAuditChain { organization_id, sequence } => {
                id_number_text("audit chain for tenant ", *organization_id, " is corrupt at sequence ", *sequence, "")
            },
        }
    }
}

/// `before`, the identifier's text, `middle`, the number's decimal text and
/// `after`, in that order.
fn id_number_text(before: &str, id: u128, middle: &str, number: i64, after: &str) -> (s: String)
    ensures
        s@ == before@ + uuid_text(id) + middle@ + int_decimal(number as int) + after@,
{
    let id_text = format_uuid(id);
    let head = concat_str(before, id_text.as_str());
    let mut s = concat_str(head.as_str(), middle);
    push_i64_decimal(&mut s, number);
    concat_str(s.as_str(), after)
}

} // verus!
