//! Execution-record vocabulary and the pure rules the controller applies to
//! effects, logs, finalization races, audit categories and log redaction.
use vstd::prelude::*;

use crate::encoding::hex_lower;
use crate::text::{concat_str, contains_text, str_contains, str_eq};
use crate::StoreError;

verus! {

pub const MAX_ATTEMPT_LOG_BYTES: i64 = 67108864;
pub const MAX_ATTEMPT_LOG_CHUNKS: i64 = 66;
/// Largest caller-selected object-retention interval accepted by the controller.
pub const MAX_OBJECT_RETENTION_SECONDS: i64 = 3153600000;


#[derive(Clone, Copy, Debug, PartialEq, Eq, Structural)]
pub enum AgentReconciliationDisposition {
    Retain,
    Cancel,
}

#[derive(Clone, Copy, Debug, PartialEq, Eq, Structural)]
pub enum ReconciliationTrustPoolAuthorization {
    Matching,
    Missing,
    Mismatched,
}

#[derive(Clone, Copy, Debug, PartialEq, Eq, Structural)]
pub enum AgentCancellationDisposition {
    Completed,
    RetireStale,
    ReconciliationRequired,
}

#[derive(Clone, Copy, Debug, PartialEq, Eq, Structural)]
pub enum AgentCancellationOutcome {
    Terminated,
    AlreadyExited,
    IdentityMismatch,
    ReconciliationRequired,
}

impl AgentCancellationOutcome {
    /// How the agent's process ended, as the cancellation events record it.
    pub open spec fn termination(self) -> Seq<char> {
        match self {
            AgentCancellationOutcome::Terminated => "terminated"@,
            AgentCancellationOutcome::AlreadyExited => "already_exited"@,
            AgentCancellationOutcome::IdentityMismatch => "identity_mismatch"@,
            AgentCancellationOutcome::ReconciliationRequired => "unverifiable"@,
        }
    }

    pub fn process_termination(self) -> (s: &'static str)
        ensures
            s@ == self.termination(),
    {
        match self {
            AgentCancellationOutcome::Terminated => "terminated",
            AgentCancellationOutcome::AlreadyExited => "already_exited",
            AgentCancellationOutcome::IdentityMismatch => "identity_mismatch",
            AgentCancellationOutcome::ReconciliationRequired => "unverifiable",
        }
    }
}

/// Idempotency classification for a durable external effect.
#[derive(Clone, Copy, Debug, PartialEq, Eq, Structural)]
pub enum EffectClass {
    Idempotent,
    ExternallyIdempotent,
    NonIdempotent,
}

impl EffectClass {
    pub open spec fn name(self) -> Seq<char> {
        match self {
            EffectClass::Idempotent => "idempotent"@,
            EffectClass::ExternallyIdempotent => "externally_idempotent"@,
            EffectClass::NonIdempotent => "non_idempotent"@,
        }
    }

    pub open spec fn from_name(s: Seq<char>) -> Option<EffectClass> {
        if s == "idempotent"@ {
            Some(EffectClass::Idempotent)
        } else if s == "externally_idempotent"@ {
            Some(EffectClass::ExternallyIdempotent)
        } else if s == "non_idempotent"@ {
            Some(EffectClass::NonIdempotent)
        } else {
            None
        }
    }

    pub fn as_str(self) -> (s: &'static str)
        ensures
            s@ == self.name(),
    {
        match self {
            EffectClass::Idempotent => "idempotent",
            EffectClass::ExternallyIdempotent => "externally_idempotent",
            EffectClass::NonIdempotent => "non_idempotent",
        }
    }
}


pub fn parse_effect_class(value: &str) -> (r: Result<EffectClass, StoreError>)
    ensures
        r matches Ok(v) ==> EffectClass::from_name(value@) == Some(v),
        r is Err ==> EffectClass::from_name(value@) is None,
        r matches Err(e) ==> e is InvalidEffectPayload,
{
    if str_eq(value, "idempotent") {
        Ok(EffectClass::Idempotent)
    } else if str_eq(value, "externally_idempotent") {
        Ok(EffectClass::ExternallyIdempotent)
    } else if str_eq(value, "non_idempotent") {
        Ok(EffectClass::NonIdempotent)
    } else {
        Err(StoreError::InvalidEffectPayload(concat_str("unknown effect class ", value)))
    }
}


/// Parsing the stored name of a value gives the value back.
pub proof fn law_parse_effect_class_round_trip(v: EffectClass)
    ensures
        EffectClass::from_name(v.name()) == Some(v),
{
    reveal_strlit("idempotent");
    reveal_strlit("externally_idempotent");
    reveal_strlit("non_idempotent");
    assert("idempotent"@.len() == 10);
    assert("externally_idempotent"@.len() == 21);
    assert("non_idempotent"@.len() == 14);
}


/// Durable reconciliation state for one effect key and fencing epoch.
#[derive(Clone, Copy, Debug, PartialEq, Eq, Structural)]
pub enum EffectStatus {
    Prepared,
    Applied,
    Confirmed,
    Uncertain,
}

impl EffectStatus {
    pub open spec fn name(self) -> Seq<char> {
        match self {
            EffectStatus::Prepared => "prepared"@,
            EffectStatus::Applied => "applied"@,
            EffectStatus::Confirmed => "confirmed"@,
            EffectStatus::Uncertain => "uncertain"@,
        }
    }

    pub open spec fn from_name(s: Seq<char>) -> Option<EffectStatus> {
        if s == "prepared"@ {
            Some(EffectStatus::Prepared)
        } else if s == "applied"@ {
            Some(EffectStatus::Applied)
        } else if s == "confirmed"@ {
            Some(EffectStatus::Confirmed)
        } else if s == "uncertain"@ {
            Some(EffectStatus::Uncertain)
        } else {
            None
        }
    }

    pub fn as_str(self) -> (s: &'static str)
        ensures
            s@ == self.name(),
    {
        match self {
            EffectStatus::Prepared => "prepared",
            EffectStatus::Applied => "applied",
            EffectStatus::Confirmed => "confirmed",
            EffectStatus::Uncertain => "uncertain",
        }
    }
}


pub fn parse_effect_status(value: &str) -> (r: Result<EffectStatus, StoreError>)
    ensures
        r matches Ok(v) ==> EffectStatus::from_name(value@) == Some(v),
        r is Err ==> EffectStatus::from_name(value@) is None,
        r matches Err(e) ==> e is InvalidEffectPayload,
{
    if str_eq(value, "prepared") {
        Ok(EffectStatus::Prepared)
    } else if str_eq(value, "applied") {
        Ok(EffectStatus::Applied)
    } else if str_eq(value, "confirmed") {
        Ok(EffectStatus::Confirmed)
    } else if str_eq(value, "uncertain") {
        Ok(EffectStatus::Uncertain)
    } else {
        Err(StoreError::InvalidEffectPayload(concat_str("unknown effect status ", value)))
    }
}


/// Parsing the stored name of a value gives the value back.
pub proof fn law_parse_effect_status_round_trip(v: EffectStatus)
    ensures
        EffectStatus::from_name(v.name()) == Some(v),
{
    reveal_strlit("prepared");
    reveal_strlit("applied");
    reveal_strlit("confirmed");
    reveal_strlit("uncertain");
    assert("prepared"@.len() == 8);
    assert("applied"@.len() == 7);
    assert("confirmed"@.len() == 9);
    assert("uncertain"@.len() == 9);
    assert("confirmed"@[0] == 'c');
    assert("uncertain"@[0] == 'u');
}


/// Durable object category.
#[derive(Clone, Copy, Debug, PartialEq, Eq, Structural)]
pub enum ObjectKind {
    Log,
    Artifact,
    Result,
}

impl ObjectKind {
    pub open spec fn name(self) -> Seq<char> {
        match self {
            ObjectKind::Log => "log"@,
            ObjectKind::Artifact => "artifact"@,
            ObjectKind::Result => "result"@,
        }
    }

    pub open spec fn from_name(s: Seq<char>) -> Option<ObjectKind> {
        if s == "log"@ {
            Some(ObjectKind::Log)
        } else if s == "artifact"@ {
            Some(ObjectKind::Artifact)
        } else if s == "result"@ {
            Some(ObjectKind::Result)
        } else {
            None
        }
    }

    pub fn as_str(self) -> (s: &'static str)
        ensures
            s@ == self.name(),
    {
        match self {
            ObjectKind::Log => "log",
            ObjectKind::Artifact => "artifact",
            ObjectKind::Result => "result",
        }
    }
}


pub fn parse_object_kind(value: &str) -> (r: Result<ObjectKind, StoreError>)
    ensures
        r matches Ok(v) ==> ObjectKind::from_name(value@) == Some(v),
        r is Err ==> ObjectKind::from_name(value@) is None,
        r matches Err(e) ==> e is InvalidObjectRecord,
{
    if str_eq(value, "log") {
        Ok(ObjectKind::Log)
    } else if str_eq(value, "artifact") {
        Ok(ObjectKind::Artifact)
    } else if str_eq(value, "result") {
        Ok(ObjectKind::Result)
    } else {
        Err(StoreError::InvalidObjectRecord(concat_str("unknown object kind ", value)))
    }
}


/// Parsing the stored name of a value gives the value back.
pub proof fn law_parse_object_kind_round_trip(v: ObjectKind)
    ensures
        ObjectKind::from_name(v.name()) == Some(v),
{
    reveal_strlit("log");
    reveal_strlit("artifact");
    reveal_strlit("result");
    assert("log"@.len() == 3);
    assert("artifact"@.len() == 8);
    assert("result"@.len() == 6);
}


/// Explicit controller view of object-store availability.
#[derive(Clone, Copy, Debug, PartialEq, Eq, Structural)]
pub enum ObjectStatus {
    Pending,
    Available,
    Missing,
    Corrupt,
}

impl ObjectStatus {
    pub open spec fn name(self) -> Seq<char> {
        match self {
            ObjectStatus::Pending => "pending"@,
            ObjectStatus::Available => "available"@,
            ObjectStatus::Missing => "missing"@,
            ObjectStatus::Corrupt => "corrupt"@,
        }
    }

    pub open spec fn from_name(s: Seq<char>) -> Option<ObjectStatus> {
        if s == "pending"@ {
            Some(ObjectStatus::Pending)
        } else if s == "available"@ {
            Some(ObjectStatus::Available)
        } else if s == "missing"@ {
            Some(ObjectStatus::Missing)
        } else if s == "corrupt"@ {
            Some(ObjectStatus::Corrupt)
        } else {
            None
        }
    }

    pub fn as_str(self) -> (s: &'static str)
        ensures
            s@ == self.name(),
    {
        match self {
            ObjectStatus::Pending => "pending",
            ObjectStatus::Available => "available",
            ObjectStatus::Missing => "missing",
            ObjectStatus::Corrupt => "corrupt",
        }
    }
}


pub fn parse_object_status(value: &str) -> (r: Result<ObjectStatus, StoreError>)
    ensures
        r matches Ok(v) ==> ObjectStatus::from_name(value@) == Some(v),
        r is Err ==> ObjectStatus::from_name(value@) is None,
        r matches Err(e) ==> e is InvalidObjectRecord,
{
    if str_eq(value, "pending") {
        Ok(ObjectStatus::Pending)
    } else if str_eq(value, "available") {
        Ok(ObjectStatus::Available)
    } else if str_eq(value, "missing") {
        Ok(ObjectStatus::Missing)
    } else if str_eq(value, "corrupt") {
        Ok(ObjectStatus::Corrupt)
    } else {
        Err(StoreError::InvalidObjectRecord(concat_str("unknown object status ", value)))
    }
}


/// Parsing the stored name of a value gives the value back.
pub proof fn law_parse_object_status_round_trip(v: ObjectStatus)
    ensures
        ObjectStatus::from_name(v.name()) == Some(v),
{
    reveal_strlit("pending");
    reveal_strlit("available");
    reveal_strlit("missing");
    reveal_strlit("corrupt");
    assert("pending"@.len() == 7);
    assert("available"@.len() == 9);
    assert("missing"@.len() == 7);
    assert("corrupt"@.len() == 7);
    assert("corrupt"@[0] == 'c');
    assert("missing"@[0] == 'm');
    assert("pending"@[0] == 'p');
}


/// Terminal result accepted from a fenced attempt.
#[derive(Clone, Copy, Debug, PartialEq, Eq, Structural)]
pub enum TerminalOutcome {
    Succeeded,
    Failed,
    Aborted,
}

impl TerminalOutcome {
    pub open spec fn name(self) -> Seq<char> {
        match self {
            TerminalOutcome::Succeeded => "succeeded"@,
            TerminalOutcome::Failed => "failed"@,
            TerminalOutcome::Aborted => "aborted"@,
        }
    }

    pub open spec fn from_name(s: Seq<char>) -> Option<TerminalOutcome> {
        if s == "succeeded"@ {
            Some(TerminalOutcome::Succeeded)
        } else if s == "failed"@ {
            Some(TerminalOutcome::Failed)
        } else if s == "aborted"@ {
            Some(TerminalOutcome::Aborted)
        } else {
            None
        }
    }

    pub fn as_str(self) -> (s: &'static str)
        ensures
            s@ == self.name(),
    {
        match self {
            TerminalOutcome::Succeeded => "succeeded",
            TerminalOutcome::Failed => "failed",
            TerminalOutcome::Aborted => "aborted",
        }
    }
}

/// A sealed database checkpoint that can anchor backup and point-in-time
/// recovery.
#[derive(Clone, Debug, PartialEq, Eq)]
pub struct RecoveryPoint {
    pub backup_id: String,
    pub restore_epoch: i64,
    /// LSN persisted inside the sealed database row.
    pub sealed_lsn: String,
    /// Later WAL boundary that includes the transaction persisting `sealed_lsn`.
    pub recovery_lsn: String,
}

/// Result of activating restored controller truth.
#[derive(Clone, Debug, PartialEq, Eq)]
pub struct RestoreActivation {
    pub restore_epoch: i64,
    pub backup_id: String,
    pub sealed_lsn: String,
    pub affected_attempts: u64,
}

/// The effect-status transitions the controller accepts from a stored
/// status: prepared effects may be re-prepared, applied or become uncertain;
/// applied ones may be re-applied, confirmed or become uncertain; confirmed
/// ones stay confirmed; uncertain ones stay uncertain or get confirmed.
pub open spec fn effect_transition_allowed(current: Option<EffectStatus>, requested: EffectStatus) -> bool {
    match current {
        Some(EffectStatus::Prepared) => requested is Prepared || requested is Applied || requested is Uncertain,
        Some(EffectStatus::Applied) => requested is Applied || requested is Confirmed || requested is Uncertain,
        Some(EffectStatus::Confirmed) => requested is Confirmed,
        Some(EffectStatus::Uncertain) => requested is Uncertain || requested is Confirmed,
        None => false,
    }
}

pub fn valid_effect_transition(current: &str, requested: EffectStatus) -> (r: bool)
    ensures
        r == effect_transition_allowed(EffectStatus::from_name(current@), requested),
{
    match parse_effect_status(current) {
        Ok(EffectStatus::Prepared) => matches!(requested, EffectStatus::Prepared | EffectStatus::Applied | EffectStatus::Uncertain),
        Ok(EffectStatus::Applied) => matches!(requested, EffectStatus::Applied | EffectStatus::Confirmed | EffectStatus::Uncertain),
        Ok(EffectStatus::Confirmed) => matches!(requested, EffectStatus::Confirmed),
        Ok(EffectStatus::Uncertain) => matches!(requested, EffectStatus::Uncertain | EffectStatus::Confirmed),
        Err(_) => false,
    }
}

/// A confirmed effect is final: no transition leaves it.
pub proof fn law_confirmed_effects_are_final(requested: EffectStatus)
    requires
        effect_transition_allowed(Some(EffectStatus::Confirmed), requested),
    ensures
        requested == EffectStatus::Confirmed,
{
}

/// Nothing returns to the prepared state but a prepared effect, and an
/// uncertain effect never goes back to being merely applied.
pub proof fn law_effects_never_regress(current: EffectStatus, requested: EffectStatus)
    requires
        effect_transition_allowed(Some(current), requested),
    ensures
        requested is Prepared ==> current is Prepared,
        current is Uncertain ==> !(requested is Applied),
{
}

/// Attempt statuses from which a finalization may still be recovered.
pub open spec fn recoverable_status(status: Seq<char>) -> bool {
    status == "running"@ || status == "finalizing"@ || status == "cancelling"@
}

pub fn recoverable_finalization_status(status: &str) -> (r: bool)
    ensures
        r == recoverable_status(status@),
{
    str_eq(status, "running") || str_eq(status, "finalizing") || str_eq(status, "cancelling")
}

/// Whether an incoming log chunk fits in the attempt's log quota; the bound
/// itself is allowed and anything past it is refused.
pub fn log_quota_allows(committed: i64, incoming: i64) -> (r: bool)
    ensures
        r == (committed >= 0 && incoming >= 0 && committed + incoming <= MAX_ATTEMPT_LOG_BYTES),
{
    if committed < 0 || incoming < 0 {
        return false;
    }
    match committed.checked_add(incoming) {
        Some(total) => total <= MAX_ATTEMPT_LOG_BYTES,
        None => false,
    }
}

pub fn log_sequence_is_bounded(sequence: i64) -> (r: bool)
    ensures
        r == (0 <= sequence < MAX_ATTEMPT_LOG_CHUNKS),
{
    0 <= sequence && sequence < MAX_ATTEMPT_LOG_CHUNKS
}

/// The audit category of a build-event kind, by the first keyword it holds.
pub open spec fn audit_category(kind: Seq<char>) -> Seq<char> {
    if contains_text(kind, "credential"@) {
        "credential_grant"@
    } else if contains_text(kind, "approval"@) || contains_text(kind, "approved"@) {
        "approval"@
    } else if contains_text(kind, "artifact"@) || contains_text(kind, "object"@) {
        "artifact"@
    } else {
        "scheduling"@
    }
}

pub fn audit_category_for_event(kind: &str) -> (r: &'static str)
    ensures
        r@ == audit_category(kind@),
{
    if str_contains(kind, "credential") {
        "credential_grant"
    } else if str_contains(kind, "approval") || str_contains(kind, "approved") {
        "approval"
    } else if str_contains(kind, "artifact") || str_contains(kind, "object") {
        "artifact"
    } else {
        "scheduling"
    }
}

fn hex_digit(nibble: u8) -> (s: &'static str)
    requires
        nibble < 16,
    ensures
        s@ == seq![crate::encoding::hex_char(nibble)],
{
    let s = match nibble {
        0 => "0",
        1 => "1",
        2 => "2",
        3 => "3",
        4 => "4",
        5 => "5",
        6 => "6",
        7 => "7",
        8 => "8",
        9 => "9",
        10 => "a",
        11 => "b",
        12 => "c",
        13 => "d",
        14 => "e",
        _ => "f",
    };
    proof {
        reveal_strlit("0");
        reveal_strlit("1");
        reveal_strlit("2");
        reveal_strlit("3");
        reveal_strlit("4");
        reveal_strlit("5");
        reveal_strlit("6");
        reveal_strlit("7");
        reveal_strlit("8");
        reveal_strlit("9");
        reveal_strlit("a");
        reveal_strlit("b");
        reveal_strlit("c");
        reveal_strlit("d");
        reveal_strlit("e");
        reveal_strlit("f");
    }
    s
}

/// Lower-case hexadecimal text of a digest.
pub fn hex_digest(digest: &[u8; 32]) -> (s: String)
    ensures
        s@ == hex_lower(digest@),
{
    let mut out = String::new();
    let mut i: usize = 0;
    assert(digest@.take(0) =~= Seq::<u8>::empty());
    while i < 32
        invariant
            i <= 32,
            digest@.len() == 32,
            out@ == hex_lower(digest@.take(i as int)),
        decreases 32 - i,
    {
        let b = digest[i];
        let hi = concat_str(out.as_str(), hex_digit(b / 16));
        out = concat_str(hi.as_str(), hex_digit(b % 16));
        proof {
            let t = digest@.take(i + 1);
            assert(t.drop_last() =~= digest@.take(i as int));
            assert(t.last() == b);
        }
        i = i + 1;
    }
    assert(digest@.take(32) =~= digest@);
    out
}

/// A single-node build as its owner reads it back. JSON values are held as
/// their compact encodings.
#[derive(Clone, Debug, PartialEq, Eq)]
pub struct BuildSnapshot {
    pub build_id: u128,
    pub node_id: u128,
    pub attempt_id: u128,
    pub build_status: String,
    pub attempt_status: String,
    pub fence: i64,
    pub lease_owner: Option<String>,
    pub cancellation_requested: bool,
    pub terminal_summary: Option<Vec<u8>>,
    pub execution_spec: Vec<u8>,
}

/// What a leased agent needs to run its attempt.
#[derive(Clone, Debug, PartialEq, Eq)]
pub struct AttemptExecution {
    pub build_id: u128,
    pub project_id: u128,
    pub execution_spec: Vec<u8>,
    pub cancellation_requested: bool,
}

/// One outbox message handed to the publisher.
#[derive(Clone, Debug, PartialEq, Eq)]
pub struct PublishedOutbox {
    pub id: i64,
    pub topic: String,
    pub aggregate_id: u128,
    pub payload: Vec<u8>,
}

/// One durable effect checkpoint of an attempt.
#[derive(Clone, Debug, PartialEq, Eq)]
pub struct EffectCheckpoint {
    pub attempt_id: u128,
    pub fence: i64,
    pub effect_key: String,
    pub effect_class: EffectClass,
    pub status: EffectStatus,
    pub payload: Vec<u8>,
    pub payload_digest: [u8; 32],
}

/// One object an attempt registered.
#[derive(Clone, Debug, PartialEq, Eq)]
pub struct StoredObject {
    pub attempt_id: u128,
    pub fence: i64,
    pub kind: ObjectKind,
    pub name: String,
    pub digest: [u8; 32],
    pub bytes: i64,
    pub status: ObjectStatus,
}

/// One artifact of a build, as listed to its readers.
#[derive(Clone, Debug, PartialEq, Eq)]
pub struct ArtifactMetadata {
    pub build_id: u128,
    pub node_id: u128,
    pub attempt_id: u128,
    pub fence: i64,
    pub name: String,
    pub digest: [u8; 32],
    pub bytes: i64,
    pub media_type: String,
    pub status: ObjectStatus,
}

/// A claim to delete one content-addressed object.
#[derive(Clone, Copy, Debug, PartialEq, Eq)]
pub struct ObjectDeletionClaim {
    pub digest: [u8; 32],
    pub token: u128,
}

/// What marking an artifact available does, by its stored status.
#[derive(Clone, Copy, Debug, PartialEq, Eq, Structural)]
pub enum ArtifactPublication {
    /// It is already available: the call succeeds without a change.
    AlreadyAvailable,
    /// It is pending: it becomes available.
    Publish,
    /// It is absent, not publishable, or in another state: refused.
    Refuse,
}

pub fn artifact_publication_step(status: Option<&str>) -> (r: ArtifactPublication)
    ensures
        r == match status {
            Some(s) => if s@ == "available"@ {
                ArtifactPublication::AlreadyAvailable
            } else if s@ == "pending"@ {
                ArtifactPublication::Publish
            } else {
                ArtifactPublication::Refuse
            },
            None => ArtifactPublication::Refuse,
        },
{
    match status {
        Some(s) => if str_eq(s, "available") {
            ArtifactPublication::AlreadyAvailable
        } else if str_eq(s, "pending") {
            ArtifactPublication::Publish
        } else {
            ArtifactPublication::Refuse
        },
        None => ArtifactPublication::Refuse,
    }
}

} // verus!
