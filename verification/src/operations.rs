//! Bounds on the object, retention, recovery and admission requests the
//! controller accepts, the checks on a pipeline's stored operational state,
//! restore activation, and the order of the runtime preflight checks.
use vstd::prelude::*;

use crate::controller::MAX_OBJECT_RETENTION_SECONDS;
use crate::encoding::digest_from_slice;
use crate::text::{
    any_control, byte_len, chars_of, concat_str, has_control, int_decimal, is_padded, padded,
    push_i64_decimal, str_eq, utf8_len,
};
use crate::authorization_mapping::bytes_eq;
use crate::discovery::{strings_eq, texts_equal};
use crate::StoreError;

verus! {

pub open spec fn retention_ok(seconds: i64) -> bool {
    0 <= seconds <= MAX_OBJECT_RETENTION_SECONDS
}

/// A retention interval lies between zero and the largest accepted one.
pub fn retention_is_valid(seconds: i64) -> (r: bool)
    ensures
        r == retention_ok(seconds),
{
    0 <= seconds && seconds <= MAX_OBJECT_RETENTION_SECONDS
}

pub open spec fn object_registration_ok(name: Seq<char>, bytes: i64) -> bool {
    name.len() > 0 && byte_len(name) <= 512 && bytes >= 0
}

/// An attempt object has a name of one to 512 bytes and a non-negative size.
pub fn object_registration_is_valid(name: &str, bytes: i64) -> (r: bool)
    ensures
        r == object_registration_ok(name@, bytes),
{
    chars_of(name).len() > 0 && utf8_len(name) <= 512 && bytes >= 0
}

pub open spec fn artifact_registration_ok(
    name: Seq<char>,
    bytes: i64,
    media_type: Seq<char>,
    retention_seconds: i64,
) -> bool {
    &&& name.len() > 0 && byte_len(name) <= 512 && !has_control(name)
    &&& bytes >= 0
    &&& media_type.len() > 0 && byte_len(media_type) <= 255 && !is_padded(media_type) && !has_control(
        media_type,
    )
    &&& retention_ok(retention_seconds)
}

/// An artifact has a bounded name free of control characters, a
/// non-negative size, a bounded canonical media type and a valid retention.
pub fn artifact_registration_is_valid(name: &str, bytes: i64, media_type: &str, retention_seconds: i64) -> (r:
    bool)
    ensures
        r == artifact_registration_ok(name@, bytes, media_type@, retention_seconds),
{
    let name_ok = chars_of(name).len() > 0 && utf8_len(name) <= 512 && !any_control(name);
    let media_ok = chars_of(media_type).len() > 0 && utf8_len(media_type) <= 255 && !padded(media_type)
        && !any_control(media_type);
    name_ok && bytes >= 0 && media_ok && retention_is_valid(retention_seconds)
}

pub open spec fn legal_hold_ok(hold_key: Seq<char>, reason: Seq<char>) -> bool {
    hold_key.len() > 0 && byte_len(hold_key) <= 256 && reason.len() > 0 && byte_len(reason) <= 1024
}

/// A legal hold has a key of one to 256 bytes and a reason of one to 1024.
pub fn legal_hold_request_is_valid(hold_key: &str, reason: &str) -> (r: bool)
    ensures
        r == legal_hold_ok(hold_key@, reason@),
{
    chars_of(hold_key).len() > 0 && utf8_len(hold_key) <= 256 && chars_of(reason).len() > 0 && utf8_len(
        reason,
    ) <= 1024
}

/// An outbox batch holds between one and 1000 messages.
pub fn outbox_batch_is_valid(limit: i64) -> (r: bool)
    ensures
        r == (1 <= limit <= 1000),
{
    1 <= limit && limit <= 1000
}

/// A deletion batch holds between one and 10000 objects.
pub fn deletion_batch_is_valid(limit: i64) -> (r: bool)
    ensures
        r == (1 <= limit <= 10000),
{
    1 <= limit && limit <= 10000
}

/// A backup identifier has between one and 256 bytes.
pub fn validate_backup_id(backup_id: &str) -> (r: Result<(), StoreError>)
    ensures
        r is Ok <==> (backup_id@.len() > 0 && byte_len(backup_id@) <= 256),
        r matches Err(e) ==> e matches StoreError::InvalidRecoveryOperation(m) && m@
            == "backup id must contain between 1 and 256 bytes"@,
{
    if chars_of(backup_id).len() == 0 || utf8_len(backup_id) > 256 {
        return Err(
            StoreError::InvalidRecoveryOperation("backup id must contain between 1 and 256 bytes".to_owned()),
        );
    }
    Ok(())
}

/// A restore names a backup of one to 256 bytes and gives a reason of one
/// to 1024 bytes.
pub fn validate_restore_request(backup_id: &str, reason: &str) -> (r: Result<(), StoreError>)
    ensures
        r is Ok <==> (backup_id@.len() > 0 && byte_len(backup_id@) <= 256 && reason@.len() > 0
            && byte_len(reason@) <= 1024),
        r matches Err(e) ==> e matches StoreError::InvalidRecoveryOperation(m) && m@
            == "backup id and restore reason must be non-empty and bounded"@,
{
    if chars_of(backup_id).len() == 0 || utf8_len(backup_id) > 256 || chars_of(reason).len() == 0
        || utf8_len(reason) > 1024 {
        return Err(
            StoreError::InvalidRecoveryOperation(
                "backup id and restore reason must be non-empty and bounded".to_owned(),
            ),
        );
    }
    Ok(())
}

/// A build's trust pool is non-empty and not padded with whitespace.
pub fn validate_trust_pool(pool: &str) -> (r: Result<(), StoreError>)
    ensures
        r is Ok <==> (pool@.len() > 0 && !is_padded(pool@)),
        r matches Err(e) ==> e is InvalidTrustPool,
{
    if chars_of(pool).len() == 0 || padded(pool) {
        return Err(StoreError::InvalidTrustPool);
    }
    Ok(())
}

/// A pipeline's stored operational state, as the admission checks read it.
pub struct PipelineState<'a> {
    pub current_revision: i64,
    pub operational_generation: i64,
    pub state: &'a str,
    pub revision_digest: &'a [u8],
}

fn stale_binding_message(revision: i64, generation: i64) -> (m: String)
    ensures
        m@ == "pipeline admission binding is stale: current revision/generation is "@ + int_decimal(
            revision as int,
        ) + "/"@ + int_decimal(generation as int),
{
    let mut m = "pipeline admission binding is stale: current revision/generation is ".to_owned();
    push_i64_decimal(&mut m, revision);
    let mut m = concat_str(m.as_str(), "/");
    push_i64_decimal(&mut m, generation);
    m
}

/// Checks an admission's pipeline binding against the pipeline's stored
/// state and gives the saved revision's digest: the binding must be
/// positive and name the current revision and generation of an enabled
/// pipeline whose revision digest is SHA-256 sized.
pub fn check_pipeline_binding(
    pipeline_id: u128,
    revision: i64,
    generation: i64,
    current: Option<PipelineState>,
) -> (r: Result<[u8; 32], StoreError>)
    ensures
        revision <= 0 || generation <= 0 ==> (r matches Err(StoreError::InvalidPipelineState(m)) && m@
            == "pipeline admission binding must use positive revision and generation"@),
        revision > 0 && generation > 0 ==> match current {
            None => r matches Err(StoreError::PipelineStateConflict(m)) && m@
                == "pipeline admission binding does not identify a saved pipeline"@,
            Some(c) => if c.state@ == "disabled"@ {
                r == Err::<[u8; 32], StoreError>(
                    StoreError::PipelineDisabled { pipeline_id, generation: c.operational_generation },
                )
            } else if c.state@ != "enabled"@ {
                r matches Err(StoreError::InvalidPipelineState(m)) && m@ == "stored pipeline operational state '"@
                    + c.state@ + "' is invalid"@
            } else if c.current_revision != revision || c.operational_generation != generation {
                r matches Err(StoreError::PipelineStateConflict(m)) && m@
                    == "pipeline admission binding is stale: current revision/generation is "@
                    + int_decimal(c.current_revision as int) + "/"@ + int_decimal(
                    c.operational_generation as int,
                )
            } else if c.revision_digest@.len() != 32 {
                r matches Err(StoreError::PipelineStateConflict(m)) && m@
                    == "saved pipeline revision digest is not SHA-256 sized"@
            } else {
                r matches Ok(d) && d@ == c.revision_digest@
            },
        },
{
    if revision <= 0 || generation <= 0 {
        return Err(
            StoreError::InvalidPipelineState(
                "pipeline admission binding must use positive revision and generation".to_owned(),
            ),
        );
    }
    let c = match current {
        None => {
            return Err(
                StoreError::PipelineStateConflict(
                    "pipeline admission binding does not identify a saved pipeline".to_owned(),
                ),
            );
        },
        Some(c) => c,
    };
    if str_eq(c.state, "disabled") {
        return Err(StoreError::PipelineDisabled { pipeline_id, generation: c.operational_generation });
    }
    if !str_eq(c.state, "enabled") {
        let head = concat_str("stored pipeline operational state '", c.state);
        return Err(StoreError::InvalidPipelineState(concat_str(head.as_str(), "' is invalid")));
    }
    if c.current_revision != revision || c.operational_generation != generation {
        return Err(
            StoreError::PipelineStateConflict(
                stale_binding_message(c.current_revision, c.operational_generation),
            ),
        );
    }
    match digest_from_slice(c.revision_digest) {
        Some(d) => Ok(d),
        None => Err(
            StoreError::PipelineStateConflict("saved pipeline revision digest is not SHA-256 sized".to_owned()),
        ),
    }
}

fn stale_build_message(admitted: i64, current: i64) -> (m: String)
    ensures
        m@ == "build pipeline generation "@ + int_decimal(admitted as int) + " is stale; current generation is "@
            + int_decimal(current as int),
{
    let mut m = "build pipeline generation ".to_owned();
    push_i64_decimal(&mut m, admitted);
    let mut m = concat_str(m.as_str(), " is stale; current generation is ");
    push_i64_decimal(&mut m, current);
    m
}

/// Checks that a build's pipeline is still enabled at the operational
/// generation the build was admitted under, and gives the pipeline and that
/// generation. `binding` is the build's stored pipeline and admitted
/// generation; `current` the pipeline's current generation and state.
pub fn check_build_pipeline(
    binding: Option<(Option<u128>, Option<i64>)>,
    current: Option<(i64, &str)>,
) -> (r: Result<(u128, i64), StoreError>)
    ensures
        match binding {
            Some((Some(pipeline_id), Some(admitted))) => match current {
                None => r matches Err(StoreError::PipelineStateConflict(m)) && m@
                    == "build pipeline operational-state truth is missing"@,
                Some((generation, state)) => if state@ == "disabled"@ {
                    r == Err::<(u128, i64), StoreError>(StoreError::PipelineDisabled { pipeline_id, generation })
                } else if state@ != "enabled"@ {
                    r matches Err(StoreError::InvalidPipelineState(m)) && m@
                        == "stored pipeline operational state '"@ + state@ + "' is invalid"@
                } else if generation != admitted {
                    r matches Err(StoreError::PipelineStateConflict(m)) && m@ == "build pipeline generation "@
                        + int_decimal(admitted as int) + " is stale; current generation is "@ + int_decimal(
                        generation as int,
                    )
                } else {
                    r == Ok::<(u128, i64), StoreError>((pipeline_id, generation))
                },
            },
            _ => r matches Err(StoreError::PipelineStateConflict(m)) && m@
                == "build is missing its pipeline operational-state binding"@,
        },
{
    let (pipeline_id, admitted) = match binding {
        Some((Some(p), Some(g))) => (p, g),
        _ => {
            return Err(
                StoreError::PipelineStateConflict(
                    "build is missing its pipeline operational-state binding".to_owned(),
                ),
            );
        },
    };
    let (generation, state) = match current {
        None => {
            return Err(
                StoreError::PipelineStateConflict("build pipeline operational-state truth is missing".to_owned()),
            );
        },
        Some(c) => c,
    };
    if str_eq(state, "disabled") {
        return Err(StoreError::PipelineDisabled { pipeline_id, generation });
    }
    if !str_eq(state, "enabled") {
        let head = concat_str("stored pipeline operational state '", state);
        return Err(StoreError::InvalidPipelineState(concat_str(head.as_str(), "' is invalid")));
    }
    if generation != admitted {
        return Err(StoreError::PipelineStateConflict(stale_build_message(admitted, generation)));
    }
    Ok((pipeline_id, generation))
}

/// What activating a restore does.
#[derive(Clone, Copy, Debug, PartialEq, Eq, Structural)]
pub enum RestorePlan {
    /// The backup was already activated; its recorded activation answers.
    Replay { restore_epoch: i64, affected_attempts: u64 },
    /// No sealed recovery point carries the backup identifier.
    NoRecoveryPoint,
    /// The next restore epoch is activated.
    Activate { restore_epoch: i64 },
}

fn epoch_mismatch_message(point: i64, current: i64) -> (m: String)
    ensures
        m@ == "recovery point belongs to restore epoch "@ + int_decimal(point as int) + ", current epoch is "@
            + int_decimal(current as int),
{
    let mut m = "recovery point belongs to restore epoch ".to_owned();
    push_i64_decimal(&mut m, point);
    let mut m = concat_str(m.as_str(), ", current epoch is ");
    push_i64_decimal(&mut m, current);
    m
}

/// Decides a restore activation from the current restore epoch, the
/// recorded activation of the same backup (its epoch and affected-attempt
/// count) and the restore epoch of the backup's sealed recovery point.
pub fn plan_restore_activation(
    current_epoch: i64,
    existing: Option<(i64, i64)>,
    recovery_point_epoch: Option<i64>,
) -> (r: Result<RestorePlan, StoreError>)
    ensures
        match existing {
            Some((epoch, affected)) => if affected >= 0 {
                r == Ok::<RestorePlan, StoreError>(
                    RestorePlan::Replay { restore_epoch: epoch, affected_attempts: affected as u64 },
                )
            } else {
                r matches Err(StoreError::InvalidRecoveryOperation(m)) && m@
                    == "stored affected-attempt count is invalid"@
            },
            None => match recovery_point_epoch {
                None => r == Ok::<RestorePlan, StoreError>(RestorePlan::NoRecoveryPoint),
                Some(point) => if point != current_epoch {
                    r matches Err(StoreError::InvalidRecoveryOperation(m)) && m@
                        == "recovery point belongs to restore epoch "@ + int_decimal(point as int)
                        + ", current epoch is "@ + int_decimal(current_epoch as int)
                } else if current_epoch == i64::MAX {
                    r matches Err(StoreError::InvalidRecoveryOperation(m)) && m@ == "restore epoch overflow"@
                } else {
                    r == Ok::<RestorePlan, StoreError>(
                        RestorePlan::Activate { restore_epoch: (current_epoch + 1) as i64 },
                    )
                },
            },
        },
{
    if let Some((epoch, affected)) = existing {
        if affected < 0 {
            return Err(
                StoreError::InvalidRecoveryOperation("stored affected-attempt count is invalid".to_owned()),
            );
        }
        return Ok(RestorePlan::Replay { restore_epoch: epoch, affected_attempts: affected as u64 });
    }
    let point = match recovery_point_epoch {
        None => {
            return Ok(RestorePlan::NoRecoveryPoint);
        },
        Some(p) => p,
    };
    if point != current_epoch {
        return Err(StoreError::InvalidRecoveryOperation(epoch_mismatch_message(point, current_epoch)));
    }
    if current_epoch == i64::MAX {
        return Err(StoreError::InvalidRecoveryOperation("restore epoch overflow".to_owned()));
    }
    Ok(RestorePlan::Activate { restore_epoch: current_epoch + 1 })
}

/// The checks a runtime preflight makes, in the order it makes them.
#[derive(Clone, Copy, Debug, PartialEq, Eq, Structural)]
pub enum PreflightCheck {
    /// The runtime pool cannot take an advisory lock the migration pool holds.
    SharedCluster,
    /// Both pools name the same database.
    SameDatabase,
    /// The runtime login is the constrained tenant role.
    ConstrainedRole,
    /// The runtime role has exactly the least-privilege grant matrix.
    LeastPrivilege,
    /// Every tenant table forces row-level security.
    RowLevelSecurity,
    /// The tenant's organization is visible to the runtime role.
    OrganizationVisible,
    /// Under another tenant's setting, the tenant's rows are invisible.
    TenantIsolation,
}

impl PreflightCheck {
    pub open spec fn next(self) -> Option<PreflightCheck> {
        match self {
            PreflightCheck::SharedCluster => Some(PreflightCheck::SameDatabase),
            PreflightCheck::SameDatabase => Some(PreflightCheck::ConstrainedRole),
            PreflightCheck::ConstrainedRole => Some(PreflightCheck::LeastPrivilege),
            PreflightCheck::LeastPrivilege => Some(PreflightCheck::RowLevelSecurity),
            PreflightCheck::RowLevelSecurity => Some(PreflightCheck::OrganizationVisible),
            PreflightCheck::OrganizationVisible => Some(PreflightCheck::TenantIsolation),
            PreflightCheck::TenantIsolation => None,
        }
    }

    /// The refusal a failed check gives; `organization` is the tenant's
    /// identifier as text.
    pub open spec fn failure(self, organization: Seq<char>) -> Seq<char> {
        match self {
            PreflightCheck::SharedCluster => "migration and runtime pools do not share one live PostgreSQL cluster"@,
            PreflightCheck::SameDatabase => "migration and runtime pools do not target the same PostgreSQL database"@,
            PreflightCheck::ConstrainedRole => "runtime login must be the constrained mcloving_tenant role"@,
            PreflightCheck::LeastPrivilege => "runtime role does not match the required least-privilege grant matrix"@,
            PreflightCheck::RowLevelSecurity => "required tenant tables must enforce row-level security"@,
            PreflightCheck::OrganizationVisible => "organization "@ + organization
                + " is not visible to the runtime role"@,
            PreflightCheck::TenantIsolation => "tenant row-level-security policies permit cross-tenant visibility"@,
        }
    }
}

/// One step of the runtime preflight: a passed check leads to the next one,
/// or ends the preflight after the last; a failed check refuses the runtime
/// configuration.
pub fn preflight_step(check: PreflightCheck, passed: bool, organization: &str) -> (r: Result<
    Option<PreflightCheck>,
    StoreError,
>)
    ensures
        passed ==> r == Ok::<Option<PreflightCheck>, StoreError>(check.next()),
        !passed ==> (r matches Err(StoreError::InvalidRuntimeConfiguration(m)) && m@ == check.failure(
            organization@,
        )),
{
    if passed {
        return Ok(
            match check {
                PreflightCheck::SharedCluster => Some(PreflightCheck::SameDatabase),
                PreflightCheck::SameDatabase => Some(PreflightCheck::ConstrainedRole),
                PreflightCheck::ConstrainedRole => Some(PreflightCheck::LeastPrivilege),
                PreflightCheck::LeastPrivilege => Some(PreflightCheck::RowLevelSecurity),
                PreflightCheck::RowLevelSecurity => Some(PreflightCheck::OrganizationVisible),
                PreflightCheck::OrganizationVisible => Some(PreflightCheck::TenantIsolation),
                PreflightCheck::TenantIsolation => None,
            },
        );
    }
    let message = match check {
        PreflightCheck::SharedCluster => "migration and runtime pools do not share one live PostgreSQL cluster".to_owned(),
        PreflightCheck::SameDatabase => "migration and runtime pools do not target the same PostgreSQL database".to_owned(),
        PreflightCheck::ConstrainedRole => "runtime login must be the constrained mcloving_tenant role".to_owned(),
        PreflightCheck::LeastPrivilege => "runtime role does not match the required least-privilege grant matrix".to_owned(),
        PreflightCheck::RowLevelSecurity => "required tenant tables must enforce row-level security".to_owned(),
        PreflightCheck::OrganizationVisible => {
            let head = concat_str("organization ", organization);
            concat_str(head.as_str(), " is not visible to the runtime role")
        },
        PreflightCheck::TenantIsolation => "tenant row-level-security policies permit cross-tenant visibility".to_owned(),
    };
    Err(StoreError::InvalidRuntimeConfiguration(message))
}

/// A step that finds its build's pipeline disabled or moved on is refused
/// quietly, answered `false`; any other failure is reported as it is.
pub fn refused_by_pipeline_state(error: &StoreError) -> (r: bool)
    ensures
        r == (error is PipelineDisabled || error is PipelineStateConflict),
{
    match error {
        StoreError::PipelineDisabled { .. } => true,
        StoreError::PipelineStateConflict(_) => true,
        _ => false,
    }
}

/// A single-node build admission. `execution_spec` holds the compact JSON
/// encoding of the node's execution specification.
#[derive(Clone, Debug, PartialEq, Eq)]
pub struct NewBuild {
    pub organization_id: u128,
    pub project_id: u128,
    pub pipeline_id: u128,
    pub pipeline_revision: i64,
    pub pipeline_operational_generation: i64,
    pub idempotency_key: String,
    pub pipeline_digest: [u8; 32],
    pub node_key: String,
    pub required_capabilities: Vec<String>,
    pub required_trust_pool: String,
    pub priority: i32,
    pub execution_spec: Vec<u8>,
}

/// Stable identifiers returned after admission.
#[derive(Clone, Copy, Debug, PartialEq, Eq, Structural)]
pub struct BuildAdmission {
    pub build_id: u128,
    pub node_id: u128,
    pub attempt_id: u128,
    pub created: bool,
}

/// What the store holds for a build already admitted under the same
/// idempotency key, one row per node with its first attempt.
#[derive(Clone, Debug, PartialEq, Eq)]
pub struct StoredAdmission {
    pub build_id: u128,
    pub node_id: u128,
    pub attempt_id: u128,
    pub organization_id: u128,
    pub pipeline_id: Option<u128>,
    pub pipeline_revision: Option<i64>,
    pub pipeline_operational_generation: Option<i64>,
    pub pipeline_digest: Vec<u8>,
    pub build_priority: i32,
    pub dag_mode: bool,
    pub node_key: String,
    pub required_capabilities: Vec<String>,
    pub required_trust_pool: String,
    pub node_priority: i32,
    pub execution_spec: Vec<u8>,
}

/// The stored build is exactly the one the admission describes.
pub open spec fn admission_matches(input: NewBuild, row: StoredAdmission) -> bool {
    &&& row.organization_id == input.organization_id
    &&& row.pipeline_id == Some(input.pipeline_id)
    &&& row.pipeline_revision == Some(input.pipeline_revision)
    &&& row.pipeline_operational_generation == Some(input.pipeline_operational_generation)
    &&& row.pipeline_digest@ == input.pipeline_digest@
    &&& row.build_priority == input.priority
    &&& !row.dag_mode
    &&& row.node_key@ == input.node_key@
    &&& texts_equal(row.required_capabilities@, input.required_capabilities@)
    &&& row.required_trust_pool@ == input.required_trust_pool@
    &&& row.node_priority == input.priority
    &&& row.execution_spec@ == input.execution_spec@
}

/// Answers a repeated admission from what the store holds under its
/// idempotency key: nothing yet, the same single-node build, or a conflict.
/// `rows` holds at most the first two stored nodes.
pub fn check_existing_admission(input: &NewBuild, rows: &Vec<StoredAdmission>) -> (r: Result<
    Option<BuildAdmission>,
    StoreError,
>)
    ensures
        rows@.len() == 0 ==> r == Ok::<Option<BuildAdmission>, StoreError>(None),
        rows@.len() > 1 ==> (r matches Err(StoreError::IdempotencyConflict(m)) && m@
            == "idempotent single-node build has a different node contract"@),
        rows@.len() == 1 ==> if admission_matches(*input, rows@[0]) {
            r == Ok::<Option<BuildAdmission>, StoreError>(
                Some(
                    BuildAdmission {
                        build_id: rows@[0].build_id,
                        node_id: rows@[0].node_id,
                        attempt_id: rows@[0].attempt_id,
                        created: false,
                    },
                ),
            )
        } else {
            r matches Err(StoreError::IdempotencyConflict(m)) && m@
                == "idempotency key already belongs to a different build contract"@
        },
{
    if rows.len() == 0 {
        return Ok(None);
    }
    if rows.len() != 1 {
        return Err(
            StoreError::IdempotencyConflict("idempotent single-node build has a different node contract".to_owned()),
        );
    }
    let row = &rows[0];
    let exact = row.organization_id == input.organization_id && row.pipeline_id == Some(input.pipeline_id)
        && row.pipeline_revision == Some(input.pipeline_revision) && row.pipeline_operational_generation == Some(
        input.pipeline_operational_generation,
    ) && bytes_eq(row.pipeline_digest.as_slice(), input.pipeline_digest.as_slice()) && row.build_priority
        == input.priority && !row.dag_mode && str_eq(row.node_key.as_str(), input.node_key.as_str()) && strings_eq(
        &row.required_capabilities,
        &input.required_capabilities,
    ) && str_eq(row.required_trust_pool.as_str(), input.required_trust_pool.as_str()) && row.node_priority
        == input.priority && bytes_eq(row.execution_spec.as_slice(), input.execution_spec.as_slice());
    if !exact {
        return Err(
            StoreError::IdempotencyConflict(
                "idempotency key already belongs to a different build contract".to_owned(),
            ),
        );
    }
    Ok(Some(BuildAdmission { build_id: row.build_id, node_id: row.node_id, attempt_id: row.attempt_id, created: false }))
}

} // verus!
