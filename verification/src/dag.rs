//! Bounded pipeline-DAG contracts: text rules, node rules, dependency
//! resolution, cycle detection, and matrix expansion.
use vstd::prelude::*;
use vstd::utf8::encode_utf8;


use crate::order::{
    key_views, lemma_sorted_is_sorted_text, lemma_text_le_total, sort_strings, sorted_text, sorted_unique_strings,
    stable_key_order, stably_ordered, text_le, text_lt, views,
};
use crate::StoreError;
use crate::text::{bytes_of, chars_eq, chars_of, concat_str, starts_with, str_eq, str_starts_with};

verus! {

pub const MAX_DAG_NODES: usize = 256;
pub const MAX_DAG_EDGES: usize = 4096;
pub const MAX_MATRIX_AXES: usize = 8;
pub const MAX_MATRIX_VALUES_PER_AXIS: usize = 32;
pub const MAX_MATRIX_CELLS: usize = 256;
pub const MAX_DAG_TEXT_BYTES: usize = 256;
pub const MAX_EXECUTION_SPEC_BYTES: usize = 262144;
pub const MAX_DAG_CAPABILITIES: usize = 64;

/// Condition under which one dependency is satisfied.
#[derive(Clone, Copy, Debug, PartialEq, Eq, Structural)]
pub enum DependencyCondition {
    Succeeded,
    Completed,
}

/// Scheduling role of a logical DAG node.
#[derive(Clone, Copy, Debug, PartialEq, Eq, Structural)]
pub enum DagNodeKind {
    Work,
    Join,
    Post,
}

#[derive(Clone, Debug, PartialEq, Eq)]
pub struct DagDependency {
    pub node_key: String,
    pub condition: DependencyCondition,
}

/// One logical node of a DAG build. `execution_spec` holds the compact JSON
/// encoding of the node's execution specification.
#[derive(Clone, Debug, PartialEq, Eq)]
pub struct NewDagNode {
    pub node_key: String,
    pub kind: DagNodeKind,
    pub dependencies: Vec<DagDependency>,
    pub required_capabilities: Vec<String>,
    pub required_platform: String,
    pub required_trust_pool: String,
    pub priority: i32,
    pub execution_spec: Vec<u8>,
    pub fail_fast: bool,
    pub max_attempts: i32,
}

/// One complete DAG build admission.
#[derive(Clone, Debug, PartialEq, Eq)]
pub struct NewDagBuild {
    pub organization_id: u128,
    pub project_id: u128,
    pub idempotency_key: String,
    pub pipeline_digest: [u8; 32],
    pub priority: i32,
    pub nodes: Vec<NewDagNode>,
}

/// Identifiers of one admitted DAG node and its first attempt.
#[derive(Clone, Copy, Debug, PartialEq, Eq, Structural)]
pub struct DagNodeAdmission {
    pub node_id: u128,
    pub attempt_id: u128,
}

/// An admitted DAG build: its nodes by key, in key order.
#[derive(Clone, Debug, PartialEq, Eq)]
pub struct DagAdmission {
    pub build_id: u128,
    pub nodes: Vec<(String, DagNodeAdmission)>,
    pub created: bool,
}

/// One deterministic Cartesian-product cell: its node key and its
/// `(axis, value)` coordinates in axis order.
#[derive(Clone, Debug, PartialEq, Eq)]
pub struct MatrixCell {
    pub node_key: String,
    pub values: Vec<(String, String)>,
}

#[derive(Clone, Copy, Debug, PartialEq, Eq, Structural)]
pub enum DagContractErrorCode {
    InvalidText,
    MatrixAxisLimit,
    MatrixValueLimit,
    MatrixCellLimit,
    DuplicateMatrixValue,
    NodeLimit,
    EdgeLimit,
    DuplicateNode,
    MissingDependency,
    DuplicateDependency,
    Cycle,
    RetryLimit,
    InvalidNodeKind,
    PlatformMismatch,
    CapabilityLimit,
    DuplicateCapability,
    ExecutionSpecLimit,
}

#[derive(Clone, Debug, PartialEq, Eq)]
pub struct DagContractError {
    pub code: DagContractErrorCode,
    pub path: String,
    pub message: String,
}

impl DagContractError {
    pub fn new(code: DagContractErrorCode, path: String, message: &str) -> (e: DagContractError)
        ensures
            e.code == code,
            e.path@ == path@,
            e.message@ == message@,
    {
        DagContractError { code, path, message: message.to_owned() }
    }

    /// The display text: the path, a colon, and the message.
    pub fn to_text(&self) -> (s: String)
        ensures
            s@ == self.path@ + ": "@ + self.message@,
    {
        let head = concat_str(self.path.as_str(), ": ");
        concat_str(head.as_str(), self.message.as_str())
    }
}

impl DependencyCondition {
    pub open spec fn name(self) -> Seq<char> {
        match self {
            DependencyCondition::Succeeded => "succeeded"@,
            DependencyCondition::Completed => "completed"@,
        }
    }

    pub fn as_str(self) -> (s: &'static str)
        ensures
            s@ == self.name(),
    {
        match self {
            DependencyCondition::Succeeded => "succeeded",
            DependencyCondition::Completed => "completed",
        }
    }

    /// The condition a stored name denotes, if any.
    pub fn parse(value: &str) -> (r: Option<DependencyCondition>)
        ensures
            r matches Some(c) ==> c.name() == value@,
            r is None ==> value@ != "succeeded"@ && value@ != "completed"@,
    {
        if str_eq(value, "succeeded") {
            Some(DependencyCondition::Succeeded)
        } else if str_eq(value, "completed") {
            Some(DependencyCondition::Completed)
        } else {
            None
        }
    }
}

impl DagNodeKind {
    pub open spec fn name(self) -> Seq<char> {
        match self {
            DagNodeKind::Work => "work"@,
            DagNodeKind::Join => "join"@,
            DagNodeKind::Post => "post"@,
        }
    }

    pub fn as_str(self) -> (s: &'static str)
        ensures
            s@ == self.name(),
    {
        match self {
            DagNodeKind::Work => "work",
            DagNodeKind::Join => "join",
            DagNodeKind::Post => "post",
        }
    }

    /// The kind a stored name denotes, if any.
    pub fn parse(value: &str) -> (r: Option<DagNodeKind>)
        ensures
            r matches Some(k) ==> k.name() == value@,
            r is None ==> value@ != "work"@ && value@ != "join"@ && value@ != "post"@,
    {
        if str_eq(value, "work") {
            Some(DagNodeKind::Work)
        } else if str_eq(value, "join") {
            Some(DagNodeKind::Join)
        } else if str_eq(value, "post") {
            Some(DagNodeKind::Post)
        } else {
            None
        }
    }
}

pub open spec fn is_ascii_alnum(b: u8) -> bool {
    (48 <= b && b <= 57) || (65 <= b && b <= 90) || (97 <= b && b <= 122)
}

/// ASCII letters, digits, `.`, `_` and `-`.
pub open spec fn is_dag_text_byte(b: u8) -> bool {
    is_ascii_alnum(b) || b == 46 || b == 95 || b == 45
}

/// DAG text bytes plus `[`, `]`, `=` and `,`.
pub open spec fn is_node_key_byte(b: u8) -> bool {
    is_dag_text_byte(b) || b == 91 || b == 93 || b == 61 || b == 44
}

/// Non-empty, at most 256 bytes, all of them DAG text bytes.
pub open spec fn dag_text_ok(s: Seq<char>) -> bool {
    let b = encode_utf8(s);
    &&& 0 < b.len() <= 256
    &&& forall|i: int| 0 <= i < b.len() ==> is_dag_text_byte(#[trigger] b[i])
}

/// Non-empty, at most 256 bytes, all of them node-key bytes.
pub open spec fn node_key_ok(s: Seq<char>) -> bool {
    let b = encode_utf8(s);
    &&& 0 < b.len() <= 256
    &&& forall|i: int| 0 <= i < b.len() ==> is_node_key_byte(#[trigger] b[i])
}

fn ascii_alnum(b: u8) -> (r: bool)
    ensures
        r == is_ascii_alnum(b),
{
    (48 <= b && b <= 57) || (65 <= b && b <= 90) || (97 <= b && b <= 122)
}

fn check_text_bytes(value: &str, key_bytes: bool) -> (r: bool)
    ensures
        r == (if key_bytes {
            node_key_ok(value@)
        } else {
            dag_text_ok(value@)
        }),
{
    let b = bytes_of(value);
    if b.len() == 0 || b.len() > 256 {
        return false;
    }
    let mut i: usize = 0;
    while i < b.len()
        invariant
            i <= b@.len(),
            b@ == encode_utf8(value@),
            forall|j: int|
                0 <= j < i ==> (if key_bytes {
                    is_node_key_byte(#[trigger] b@[j])
                } else {
                    is_dag_text_byte(b@[j])
                }),
        decreases b@.len() - i,
    {
        let c = b[i];
        let ok = ascii_alnum(c) || c == 46 || c == 95 || c == 45 || (key_bytes && (c == 91 || c
            == 93 || c == 61 || c == 44));
        if !ok {
            return false;
        }
        i = i + 1;
    }
    true
}

fn invalid_text(path: String, key: bool) -> (e: DagContractError)
    ensures
        e.code == DagContractErrorCode::InvalidText,
        e.path@ == path@,
        e.message@ == (if key {
            "must be a bounded canonical DAG node key"@
        } else {
            "must be bounded ASCII letters, digits, dot, underscore, or hyphen"@
        }),
{
    DagContractError::new(
        DagContractErrorCode::InvalidText,
        path,
        if key {
            "must be a bounded canonical DAG node key"
        } else {
            "must be bounded ASCII letters, digits, dot, underscore, or hyphen"
        },
    )
}

/// Checks DAG text: non-empty, bounded, ASCII letters, digits, `.`, `_`, `-`.
pub fn validate_text(path: &str, value: &str) -> (r: Result<(), DagContractError>)
    ensures
        r is Ok <==> dag_text_ok(value@),
        r matches Err(e) ==> e.code == DagContractErrorCode::InvalidText,
        r matches Err(e) ==> e.path@ == path@ && e.message@ == text_message(),
{
    if !check_text_bytes(value, false) {
        return Err(invalid_text(path.to_owned(), false));
    }
    Ok(())
}

/// Checks a node key: DAG text that may also hold `[`, `]`, `=` and `,`.
pub fn validate_node_key(path: &str, value: &str) -> (r: Result<(), DagContractError>)
    ensures
        r is Ok <==> node_key_ok(value@),
        r matches Err(e) ==> e.code == DagContractErrorCode::InvalidText,
        r matches Err(e) ==> e.path@ == path@ && e.message@ == key_message(),
{
    if !check_text_bytes(value, true) {
        return Err(invalid_text(path.to_owned(), true));
    }
    Ok(())
}

// ---------------------------------------------------------------------------
// The DAG contract.

pub open spec fn key_of(nodes: Seq<NewDagNode>, i: int) -> Seq<char> {
    nodes[i].node_key@
}

pub open spec fn key_exists(nodes: Seq<NewDagNode>, k: Seq<char>) -> bool {
    exists|i: int| 0 <= i < nodes.len() && #[trigger] key_of(nodes, i) == k
}

pub open spec fn keys_distinct(nodes: Seq<NewDagNode>) -> bool {
    forall|i: int, j: int|
        0 <= i < j < nodes.len() ==> #[trigger] key_of(nodes, i) != #[trigger] key_of(nodes, j)
}

pub open spec fn platform_conflict(cap: Seq<char>, platform: Seq<char>) -> bool {
    starts_with(cap, "platform:"@) && cap != "platform:"@ + platform
}

pub open spec fn dep_key(n: NewDagNode, d: int) -> Seq<char> {
    n.dependencies@[d].node_key@
}

pub open spec fn cap_of(n: NewDagNode, c: int) -> Seq<char> {
    n.required_capabilities@[c]@
}

/// Every rule that one node must meet on its own.
pub open spec fn node_rules_hold(n: NewDagNode) -> bool {
    &&& dag_text_ok(n.required_platform@)
    &&& dag_text_ok(n.required_trust_pool@)
    &&& n.required_capabilities@.len() <= 64
    &&& forall|c: int|
        0 <= c < n.required_capabilities@.len() ==> dag_text_ok(#[trigger] cap_of(n, c))
    &&& forall|a: int, b: int|
        0 <= a < b < n.required_capabilities@.len() ==> #[trigger] cap_of(n, a) != #[trigger] cap_of(
            n,
            b,
        )
    &&& 1 <= n.max_attempts <= 16
    &&& n.execution_spec@.len() <= 262144
    &&& forall|c: int|
        0 <= c < n.required_capabilities@.len() ==> !platform_conflict(
            #[trigger] cap_of(n, c),
            n.required_platform@,
        )
    &&& n.kind is Join ==> n.dependencies@.len() >= 2
    &&& n.kind is Post ==> (n.dependencies@.len() >= 1 && forall|d: int|
        0 <= d < n.dependencies@.len() ==> (#[trigger] n.dependencies@[d]).condition is Completed)
}

/// Every dependency names another existing node, at most once.
pub open spec fn dependency_rules_hold(nodes: Seq<NewDagNode>, j: int) -> bool {
    let n = nodes[j];
    &&& forall|d: int|
        0 <= d < n.dependencies@.len() ==> key_exists(nodes, #[trigger] dep_key(n, d))
    &&& forall|d: int| 0 <= d < n.dependencies@.len() ==> #[trigger] dep_key(n, d) != n.node_key@
    &&& forall|a: int, b: int|
        0 <= a < b < n.dependencies@.len() ==> #[trigger] dep_key(n, a) != #[trigger] dep_key(n, b)
}

/// Number of dependency edges of the first `k` nodes.
pub open spec fn edges_upto(nodes: Seq<NewDagNode>, k: int) -> int
    decreases k,
{
    if k <= 0 {
        0
    } else {
        edges_upto(nodes, k - 1) + nodes[k - 1].dependencies@.len()
    }
}

/// `rank[i] < rank[j]` whenever node `j` depends on node `i`.
pub open spec fn is_dependency_ranking(nodes: Seq<NewDagNode>, rank: Seq<int>) -> bool {
    &&& rank.len() == nodes.len()
    &&& forall|j: int, d: int, i: int|
        0 <= j < nodes.len() && 0 <= d < nodes[j].dependencies@.len() && 0 <= i < nodes.len()
            && #[trigger] key_of(nodes, i) == #[trigger] dep_key(nodes[j], d) ==> rank[i] < rank[j]
}

/// The dependency graph has no cycle: some ranking puts every dependency
/// strictly before its dependent.
pub open spec fn dag_acyclic(nodes: Seq<NewDagNode>) -> bool {
    exists|rank: Seq<int>| is_dependency_ranking(nodes, rank)
}

/// The complete DAG contract.
pub open spec fn dag_contract_holds(input: NewDagBuild) -> bool {
    let nodes = input.nodes@;
    &&& dag_text_ok(input.idempotency_key@)
    &&& 1 <= nodes.len() <= 256
    &&& forall|j: int| 0 <= j < nodes.len() ==> node_key_ok(#[trigger] key_of(nodes, j))
    &&& keys_distinct(nodes)
    &&& forall|j: int| 0 <= j < nodes.len() ==> node_rules_hold(#[trigger] nodes[j])
    &&& forall|j: int| 0 <= j < nodes.len() ==> #[trigger] dependency_rules_hold(nodes, j)
    &&& edges_upto(nodes, nodes.len() as int) <= 4096
    &&& dag_acyclic(nodes)
}

/// The input breaks the rule that an error code reports.
pub open spec fn dag_code_violated(input: NewDagBuild, code: DagContractErrorCode) -> bool {
    let nodes = input.nodes@;
    match code {
        DagContractErrorCode::InvalidText => !dag_text_ok(input.idempotency_key@) || exists|j: int|
            0 <= j < nodes.len() && {
                let n = #[trigger] nodes[j];
                ||| !node_key_ok(n.node_key@)
                ||| !dag_text_ok(n.required_platform@)
                ||| !dag_text_ok(n.required_trust_pool@)
                ||| exists|c: int|
                    0 <= c < n.required_capabilities@.len() && !dag_text_ok(
                        #[trigger] cap_of(n, c),
                    )
            },
        DagContractErrorCode::NodeLimit => !(1 <= nodes.len() <= 256),
        DagContractErrorCode::DuplicateNode => !keys_distinct(nodes),
        DagContractErrorCode::CapabilityLimit => exists|j: int|
            0 <= j < nodes.len() && (#[trigger] nodes[j]).required_capabilities@.len() > 64,
        DagContractErrorCode::DuplicateCapability => exists|j: int, a: int, b: int|
            0 <= j < nodes.len() && 0 <= a < b < nodes[j].required_capabilities@.len()
                && #[trigger] cap_of(nodes[j], a) == #[trigger] cap_of(nodes[j], b),
        DagContractErrorCode::RetryLimit => exists|j: int|
            0 <= j < nodes.len() && !(1 <= (#[trigger] nodes[j]).max_attempts <= 16),
        DagContractErrorCode::ExecutionSpecLimit => exists|j: int|
            0 <= j < nodes.len() && (#[trigger] nodes[j]).execution_spec@.len() > 262144,
        DagContractErrorCode::PlatformMismatch => exists|j: int, c: int|
            0 <= j < nodes.len() && 0 <= c < nodes[j].required_capabilities@.len()
                && platform_conflict(
                #[trigger] cap_of(nodes[j], c),
                nodes[j].required_platform@,
            ),
        DagContractErrorCode::InvalidNodeKind => exists|j: int|
            0 <= j < nodes.len() && {
                let n = #[trigger] nodes[j];
                ||| n.kind is Join && n.dependencies@.len() < 2
                ||| n.kind is Post && (n.dependencies@.len() == 0 || exists|d: int|
                    0 <= d < n.dependencies@.len() && !((#[trigger] n.dependencies@[d]).condition is Completed))
            },
        DagContractErrorCode::EdgeLimit => edges_upto(nodes, nodes.len() as int) > 4096,
        DagContractErrorCode::MissingDependency => exists|j: int, d: int|
            0 <= j < nodes.len() && 0 <= d < nodes[j].dependencies@.len() && !key_exists(
                nodes,
                #[trigger] dep_key(nodes[j], d),
            ),
        DagContractErrorCode::DuplicateDependency => exists|j: int|
            0 <= j < nodes.len() && !(#[trigger] dependency_rules_hold(nodes, j)),
        DagContractErrorCode::Cycle => !dag_acyclic(nodes),
        _ => false,
    }
}

pub open spec fn node_field_path(n: NewDagNode, suffix: Seq<char>) -> Seq<char> {
    "$.nodes."@ + n.node_key@ + suffix
}

/// The error for node `j`'s key, once the keys before it passed.
pub open spec fn key_error_at(nodes: Seq<NewDagNode>, j: int) -> Option<(DagContractErrorCode, Seq<char>, Seq<char>)> {
    if !node_key_ok(key_of(nodes, j)) {
        Some((DagContractErrorCode::InvalidText, "$.nodes.node_key"@, key_message()))
    } else if exists|i: int| 0 <= i < j && #[trigger] key_of(nodes, i) == key_of(nodes, j) {
        Some((DagContractErrorCode::DuplicateNode, node_field_path(nodes[j], Seq::empty()), "DAG node keys must be unique"@))
    } else {
        None
    }
}

/// The first key error among the first `k` nodes.
pub open spec fn key_errors(nodes: Seq<NewDagNode>, k: int) -> Option<(DagContractErrorCode, Seq<char>, Seq<char>)>
    decreases k,
{
    if k <= 0 {
        None
    } else {
        match key_errors(nodes, k - 1) {
            Some(e) => Some(e),
            None => key_error_at(nodes, k - 1),
        }
    }
}

/// The error for capability `c` of a node, once the ones before it passed.
pub open spec fn cap_error_at(n: NewDagNode, c: int) -> Option<(DagContractErrorCode, Seq<char>, Seq<char>)> {
    if !dag_text_ok(cap_of(n, c)) {
        Some((DagContractErrorCode::InvalidText, node_field_path(n, ".required_capabilities"@), text_message()))
    } else if exists|x: int| 0 <= x < c && #[trigger] cap_of(n, x) == cap_of(n, c) {
        Some((DagContractErrorCode::DuplicateCapability, node_field_path(n, ".required_capabilities"@), "capabilities must be unique"@))
    } else {
        None
    }
}

pub open spec fn cap_errors(n: NewDagNode, k: int) -> Option<(DagContractErrorCode, Seq<char>, Seq<char>)>
    decreases k,
{
    if k <= 0 {
        None
    } else {
        match cap_errors(n, k - 1) {
            Some(e) => Some(e),
            None => cap_error_at(n, k - 1),
        }
    }
}

/// The error for dependency `d` of node `j`, once the ones before it passed:
/// the edge budget, then the parent's existence, then its distinctness.
pub open spec fn dep_error_at(nodes: Seq<NewDagNode>, j: int, d: int) -> Option<(DagContractErrorCode, Seq<char>, Seq<char>)> {
    let n = nodes[j];
    if edges_upto(nodes, j) + d == 4096 {
        Some((DagContractErrorCode::EdgeLimit, "$.nodes"@, "DAG edge count exceeds 4096"@))
    } else if !key_exists(nodes, dep_key(n, d)) {
        Some((DagContractErrorCode::MissingDependency, node_field_path(n, ".dependencies"@), "dependency does not exist"@))
    } else if dep_key(n, d) == n.node_key@ || exists|y: int| 0 <= y < d && #[trigger] dep_key(n, y) == dep_key(n, d) {
        Some((
            DagContractErrorCode::DuplicateDependency,
            node_field_path(n, ".dependencies"@),
            "dependencies must be distinct and cannot reference the node itself"@,
        ))
    } else {
        None
    }
}

pub open spec fn dep_errors(nodes: Seq<NewDagNode>, j: int, k: int) -> Option<(DagContractErrorCode, Seq<char>, Seq<char>)>
    decreases k,
{
    if k <= 0 {
        None
    } else {
        match dep_errors(nodes, j, k - 1) {
            Some(e) => Some(e),
            None => dep_error_at(nodes, j, k - 1),
        }
    }
}

/// The error for node `j`'s own rules and dependencies, in check order.
pub open spec fn node_error_at(nodes: Seq<NewDagNode>, j: int) -> Option<(DagContractErrorCode, Seq<char>, Seq<char>)> {
    let n = nodes[j];
    let caps = n.required_capabilities@.len();
    if !dag_text_ok(n.required_platform@) {
        Some((DagContractErrorCode::InvalidText, node_field_path(n, ".required_platform"@), text_message()))
    } else if !dag_text_ok(n.required_trust_pool@) {
        Some((DagContractErrorCode::InvalidText, node_field_path(n, ".required_trust_pool"@), text_message()))
    } else if caps > 64 {
        Some((DagContractErrorCode::CapabilityLimit, node_field_path(n, ".required_capabilities"@), "capability count exceeds 64"@))
    } else if cap_errors(n, caps as int) is Some {
        cap_errors(n, caps as int)
    } else if !(1 <= n.max_attempts <= 16) {
        Some((DagContractErrorCode::RetryLimit, node_field_path(n, ".max_attempts"@), "max_attempts must be between 1 and 16"@))
    } else if n.execution_spec@.len() > 262144 {
        Some((DagContractErrorCode::ExecutionSpecLimit, node_field_path(n, ".execution_spec"@), "execution specification exceeds 262144 bytes"@))
    } else if exists|c: int| 0 <= c < caps && platform_conflict(#[trigger] cap_of(n, c), n.required_platform@) {
        Some((
            DagContractErrorCode::PlatformMismatch,
            node_field_path(n, ".required_capabilities"@),
            "platform capability conflicts with required_platform"@,
        ))
    } else if n.kind is Join && n.dependencies@.len() < 2 {
        Some((DagContractErrorCode::InvalidNodeKind, node_field_path(n, ".dependencies"@), "join nodes require at least two dependencies"@))
    } else if n.kind is Post && (n.dependencies@.len() == 0 || exists|d: int|
        0 <= d < n.dependencies@.len() && !((#[trigger] n.dependencies@[d]).condition is Completed)) {
        Some((
            DagContractErrorCode::InvalidNodeKind,
            node_field_path(n, ".dependencies"@),
            "post nodes require one or more completion dependencies"@,
        ))
    } else {
        dep_errors(nodes, j, n.dependencies@.len() as int)
    }
}

pub open spec fn node_errors(nodes: Seq<NewDagNode>, k: int) -> Option<(DagContractErrorCode, Seq<char>, Seq<char>)>
    decreases k,
{
    if k <= 0 {
        None
    } else {
        match node_errors(nodes, k - 1) {
            Some(e) => Some(e),
            None => node_error_at(nodes, k - 1),
        }
    }
}

/// The error `validate_dag_contract` answers, if any: the first rule broken
/// in check order, with its path and message.
pub open spec fn dag_error(input: NewDagBuild) -> Option<(DagContractErrorCode, Seq<char>, Seq<char>)> {
    let nodes = input.nodes@;
    if !dag_text_ok(input.idempotency_key@) {
        Some((DagContractErrorCode::InvalidText, "$.idempotency_key"@, text_message()))
    } else if !(1 <= nodes.len() <= 256) {
        Some((DagContractErrorCode::NodeLimit, "$.nodes"@, "DAG node count must be between 1 and 256"@))
    } else if key_errors(nodes, nodes.len() as int) is Some {
        key_errors(nodes, nodes.len() as int)
    } else if node_errors(nodes, nodes.len() as int) is Some {
        node_errors(nodes, nodes.len() as int)
    } else if !dag_acyclic(nodes) {
        Some((DagContractErrorCode::Cycle, "$.nodes"@, "DAG contains a dependency cycle"@))
    } else {
        None
    }
}

proof fn lemma_key_errors_stay(nodes: Seq<NewDagNode>, k: int, m: int)
    requires
        0 <= k <= m,
        key_errors(nodes, k) is Some,
    ensures
        key_errors(nodes, m) == key_errors(nodes, k),
    decreases m - k,
{
    if k < m {
        lemma_key_errors_stay(nodes, k, m - 1);
    }
}

proof fn lemma_cap_errors_stay(n: NewDagNode, k: int, m: int)
    requires
        0 <= k <= m,
        cap_errors(n, k) is Some,
    ensures
        cap_errors(n, m) == cap_errors(n, k),
    decreases m - k,
{
    if k < m {
        lemma_cap_errors_stay(n, k, m - 1);
    }
}

proof fn lemma_dep_errors_stay(nodes: Seq<NewDagNode>, j: int, k: int, m: int)
    requires
        0 <= k <= m,
        dep_errors(nodes, j, k) is Some,
    ensures
        dep_errors(nodes, j, m) == dep_errors(nodes, j, k),
    decreases m - k,
{
    if k < m {
        lemma_dep_errors_stay(nodes, j, k, m - 1);
    }
}

proof fn lemma_node_errors_stay(nodes: Seq<NewDagNode>, k: int, m: int)
    requires
        0 <= k <= m,
        node_errors(nodes, k) is Some,
    ensures
        node_errors(nodes, m) == node_errors(nodes, k),
    decreases m - k,
{
    if k < m {
        lemma_node_errors_stay(nodes, k, m - 1);
    }
}

// ---------------------------------------------------------------------------
// Cycle detection over resolved dependency indices.

pub open spec fn parents_in_range(parents: Seq<Vec<usize>>) -> bool {
    forall|j: int, d: int|
        0 <= j < parents.len() && 0 <= d < parents[j]@.len() ==> #[trigger] parents[j]@[d]
            < parents.len()
}

/// `rank[p] < rank[j]` whenever `p` is a parent of `j`.
pub open spec fn is_index_ranking(parents: Seq<Vec<usize>>, rank: Seq<int>) -> bool {
    &&& rank.len() == parents.len()
    &&& forall|j: int, d: int|
        0 <= j < parents.len() && 0 <= d < parents[j]@.len() ==> rank[#[trigger] parents[j]@[d] as int]
            < rank[j]
}

pub open spec fn index_acyclic(parents: Seq<Vec<usize>>) -> bool {
    exists|rank: Seq<int>| is_index_ranking(parents, rank)
}

/// An index with the least rank among the marked ones below `k`.
proof fn min_rank_index(mask: Seq<bool>, rank: Seq<int>, k: int) -> (m: int)
    requires
        0 <= k <= mask.len(),
        mask.len() == rank.len(),
        exists|j: int| 0 <= j < k && mask[j],
    ensures
        0 <= m < k,
        mask[m],
        forall|j: int| 0 <= j < k && mask[j] ==> rank[m] <= rank[j],
    decreases k,
{
    if exists|j: int| 0 <= j < k - 1 && mask[j] {
        let m0 = min_rank_index(mask, rank, k - 1);
        if mask[k - 1] && rank[k - 1] < rank[m0] {
            k - 1
        } else {
            m0
        }
    } else {
        k - 1
    }
}

fn all_parents_visited(ps: &Vec<usize>, visited: &Vec<bool>) -> (r: bool)
    requires
        forall|d: int| 0 <= d < ps@.len() ==> #[trigger] ps@[d] < visited@.len(),
    ensures
        r == (forall|d: int| 0 <= d < ps@.len() ==> visited@[#[trigger] ps@[d] as int]),
{
    let mut d: usize = 0;
    while d < ps.len()
        invariant
            d <= ps@.len(),
            forall|x: int| 0 <= x < ps@.len() ==> #[trigger] ps@[x] < visited@.len(),
            forall|x: int| 0 <= x < d ==> visited@[#[trigger] ps@[x] as int],
        decreases ps@.len() - d,
    {
        if !visited[ps[d]] {
            return false;
        }
        d = d + 1;
    }
    true
}

/// Peels nodes whose parents are all peeled; the graph is acyclic exactly
/// when every node gets peeled.
pub fn acyclic_by_peeling(parents: &Vec<Vec<usize>>) -> (r: bool)
    requires
        parents_in_range(parents@),
    ensures
        r == index_acyclic(parents@),
{
    let n = parents.len();
    // Every (parent, child) edge.
    let mut edges: Vec<(usize, usize)> = Vec::new();
    let mut j: usize = 0;
    while j < n
        invariant
            n == parents@.len(),
            j <= n,
            parents_in_range(parents@),
            forall|e: int|
                0 <= e < edges@.len() ==> (#[trigger] edges@[e]).0 < n && edges@[e].1 < n
                    && parents@[edges@[e].1 as int]@.contains(edges@[e].0),
            forall|c: int, d: int|
                0 <= c < j && 0 <= d < parents@[c]@.len() ==> edges@.contains(
                    (#[trigger] parents@[c]@[d], c as usize),
                ),
        decreases n - j,
    {
        let ps = &parents[j];
        let mut d: usize = 0;
        while d < ps.len()
            invariant
                n == parents@.len(),
                j < n,
                *ps == parents@[j as int],
                d <= ps@.len(),
                parents_in_range(parents@),
                forall|e: int|
                    0 <= e < edges@.len() ==> (#[trigger] edges@[e]).0 < n && edges@[e].1 < n
                        && parents@[edges@[e].1 as int]@.contains(edges@[e].0),
                forall|c: int, x: int|
                    0 <= c < j && 0 <= x < parents@[c]@.len() ==> edges@.contains(
                        (#[trigger] parents@[c]@[x], c as usize),
                    ),
                forall|x: int| 0 <= x < d ==> edges@.contains((#[trigger] ps@[x], j)),
            decreases ps@.len() - d,
        {
            let ghost old_edges = edges@;
            assert(ps@[d as int] < n);
            edges.push((ps[d], j));
            assert(edges@[edges@.len() - 1] == (ps@[d as int], j));
            assert forall|c: int, x: int|
                0 <= c < j && 0 <= x < parents@[c]@.len() implies edges@.contains(
                (#[trigger] parents@[c]@[x], c as usize),
            ) by {
                let e = choose|e: int| 0 <= e < old_edges.len() && old_edges[e] == (parents@[c]@[x], c as usize);
                assert(edges@[e] == old_edges[e]);
            }
            assert forall|x: int| 0 <= x < d + 1 implies edges@.contains((#[trigger] ps@[x], j)) by {
                if x < d {
                    let e = choose|e: int| 0 <= e < old_edges.len() && old_edges[e] == (ps@[x], j);
                    assert(edges@[e] == old_edges[e]);
                }
            }
            d = d + 1;
        }
        j = j + 1;
    }
    let mut visited: Vec<bool> = Vec::new();
    let mut queued: Vec<bool> = Vec::new();
    let mut stack: Vec<usize> = Vec::new();
    let ghost mut rank: Seq<int> = Seq::empty();
    let ghost mut t: int = 0;
    let ghost mut seen: Set<int> = Set::empty();
    let mut k: usize = 0;
    while k < n
        invariant
            n == parents@.len(),
            k <= n,
            parents_in_range(parents@),
            visited@.len() == k,
            queued@.len() == k,
            rank.len() == k,
            forall|x: int| 0 <= x < k ==> !visited@[x],
            forall|x: int| 0 <= x < k ==> (#[trigger] queued@[x] <==> parents@[x]@.len() == 0),
            forall|x: int| 0 <= x < stack@.len() ==> #[trigger] stack@[x] < k && queued@[stack@[x] as int],
            stack@.no_duplicates(),
            forall|x: int| 0 <= x < k && queued@[x] ==> stack@.contains(x as usize),
        decreases n - k,
    {
        visited.push(false);
        let root = parents[k].len() == 0;
        queued.push(root);
        let ghost old_stack = stack@;
        if root {
            stack.push(k);
        }
        proof {
            rank = rank.push(0);
            assert forall|x: int| 0 <= x < k + 1 && queued@[x] implies stack@.contains(x as usize) by {
                if x < k {
                    let e = choose|e: int| 0 <= e < old_stack.len() && old_stack[e] == x as usize;
                    assert(stack@[e] == old_stack[e]);
                } else {
                    assert(stack@[stack@.len() - 1] == k);
                }
            }
        }
        k = k + 1;
    }
    proof {
        assert forall|x: int|
            0 <= x < n && !(#[trigger] queued@[x]) implies exists|d: int|
                0 <= d < parents@[x]@.len() && !visited@[parents@[x]@[d] as int] by {
            assert(parents@[x]@[0] < n);
            assert(!visited@[parents@[x]@[0] as int]);
        }
    }
    while stack.len() > 0
        invariant
            n == parents@.len(),
            parents_in_range(parents@),
            visited@.len() == n,
            queued@.len() == n,
            rank.len() == n,
            forall|e: int|
                0 <= e < edges@.len() ==> (#[trigger] edges@[e]).0 < n && edges@[e].1 < n
                    && parents@[edges@[e].1 as int]@.contains(edges@[e].0),
            forall|c: int, x: int|
                0 <= c < n && 0 <= x < parents@[c]@.len() ==> edges@.contains(
                    (#[trigger] parents@[c]@[x], c as usize),
                ),
            forall|x: int| 0 <= x < n && #[trigger] visited@[x] ==> queued@[x],
            forall|x: int|
                0 <= x < stack@.len() ==> #[trigger] stack@[x] < n && queued@[stack@[x] as int]
                    && !visited@[stack@[x] as int],
            forall|x: int| 0 <= x < n && queued@[x] && !visited@[x] ==> stack@.contains(x as usize),
            stack@.no_duplicates(),
            forall|x: int, d: int|
                0 <= x < n && queued@[x] && 0 <= d < parents@[x]@.len() ==> visited@[
                    #[trigger] parents@[x]@[d] as int],
            forall|x: int, d: int|
                0 <= x < n && visited@[x] && 0 <= d < parents@[x]@.len() ==> rank[
                    #[trigger] parents@[x]@[d] as int] < rank[x],
            forall|x: int| 0 <= x < n && #[trigger] visited@[x] ==> rank[x] < t,
            forall|x: int|
                0 <= x < n && !(#[trigger] queued@[x]) ==> exists|d: int|
                    0 <= d < parents@[x]@.len() && !visited@[parents@[x]@[d] as int],
            seen.finite(),
            seen.len() == t,
            forall|x: int| #[trigger] seen.contains(x) <==> (0 <= x < n && visited@[x]),
        decreases n - t,
    {
        let ghost old_stack = stack@;
        let ghost before_visit = visited@;
        let top = stack.pop();
        let k = top.unwrap();
        assert(old_stack[old_stack.len() - 1] == k);
        assert(!visited@[k as int]);
        visited.set(k, true);
        proof {
            rank = rank.update(k as int, t);
            t = t + 1;
            assert(!seen.contains(k as int));
            seen = seen.insert(k as int);
            assert forall|x: int|
                0 <= x < stack@.len() implies #[trigger] stack@[x] < n && queued@[stack@[x] as int]
                    && !visited@[stack@[x] as int] by {
                assert(stack@[x] == old_stack[x]);
            }
            assert forall|x: int| 0 <= x < n && queued@[x] && !visited@[x] implies stack@.contains(
                x as usize,
            ) by {
                let w = choose|w: int| 0 <= w < old_stack.len() && old_stack[w] == x as usize;
                assert(w != old_stack.len() - 1);
                assert(stack@[w] == old_stack[w]);
            }
            assert forall|x: int|
                0 <= x < n && !(#[trigger] queued@[x]) implies (exists|d: int|
                    0 <= d < parents@[x]@.len() && !visited@[parents@[x]@[d] as int]) || (
                exists|y: int| 0 <= y < edges@.len() && edges@[y] == (k, x as usize)) by {
                let d = choose|d: int| 0 <= d < parents@[x]@.len() && !before_visit[parents@[x]@[d] as int];
                if parents@[x]@[d] == k {
                    assert(edges@.contains((parents@[x]@[d], x as usize)));
                } else {
                    assert(!visited@[parents@[x]@[d] as int]);
                }
            }
        }
        let mut e: usize = 0;
        while e < edges.len()
            invariant
                n == parents@.len(),
                k < n,
                visited@[k as int],
                parents_in_range(parents@),
                visited@.len() == n,
                queued@.len() == n,
                rank.len() == n,
                e <= edges@.len(),
                forall|y: int|
                    0 <= y < edges@.len() ==> (#[trigger] edges@[y]).0 < n && edges@[y].1 < n
                        && parents@[edges@[y].1 as int]@.contains(edges@[y].0),
                forall|c: int, x: int|
                    0 <= c < n && 0 <= x < parents@[c]@.len() ==> edges@.contains(
                        (#[trigger] parents@[c]@[x], c as usize),
                    ),
                forall|x: int| 0 <= x < n && #[trigger] visited@[x] ==> queued@[x],
                forall|x: int|
                    0 <= x < stack@.len() ==> #[trigger] stack@[x] < n && queued@[stack@[x] as int]
                        && !visited@[stack@[x] as int],
                forall|x: int|
                    0 <= x < n && queued@[x] && !visited@[x] ==> stack@.contains(x as usize),
                stack@.no_duplicates(),
                forall|x: int, d: int|
                    0 <= x < n && queued@[x] && 0 <= d < parents@[x]@.len() ==> visited@[
                        #[trigger] parents@[x]@[d] as int],
                forall|x: int, d: int|
                    0 <= x < n && visited@[x] && 0 <= d < parents@[x]@.len() ==> rank[
                        #[trigger] parents@[x]@[d] as int] < rank[x],
                forall|x: int| 0 <= x < n && #[trigger] visited@[x] ==> rank[x] < t,
                seen.finite(),
                seen.len() == t,
                forall|x: int| #[trigger] seen.contains(x) <==> (0 <= x < n && visited@[x]),
                forall|x: int|
                    0 <= x < n && !(#[trigger] queued@[x]) ==> (exists|d: int|
                        0 <= d < parents@[x]@.len() && !visited@[parents@[x]@[d] as int]) || (
                    exists|y: int| e <= y < edges@.len() && edges@[y] == (k, x as usize)),
            decreases edges@.len() - e,
        {
            let edge = edges[e];
            if edge.0 == k && !queued[edge.1] {
                let c = edge.1;
                if all_parents_visited(&parents[c], &visited) {
                    let ghost old_stack = stack@;
                    queued.set(c, true);
                    stack.push(c);
                    assert forall|x: int| 0 <= x < n && queued@[x] && !visited@[x] implies stack@.contains(
                        x as usize,
                    ) by {
                        if x == c {
                            assert(stack@[stack@.len() - 1] == c);
                        } else {
                            let w = choose|w: int| 0 <= w < old_stack.len() && old_stack[w] == x as usize;
                            assert(stack@[w] == old_stack[w]);
                        }
                    }
                }
            }
            e = e + 1;
        }
        proof {
            vstd::set_lib::lemma_int_range(0, n as int);
            assert(seen.subset_of(vstd::set_lib::set_int_range(0, n as int)));
            vstd::set_lib::lemma_len_subset(seen, vstd::set_lib::set_int_range(0, n as int));
        }
    }
    // Stack empty: every queued node is visited.
    let mut all = true;
    let mut x: usize = 0;
    while x < n
        invariant
            x <= n,
            visited@.len() == n,
            all == (forall|y: int| 0 <= y < x ==> visited@[y]),
        decreases n - x,
    {
        if !visited[x] {
            all = false;
        }
        x = x + 1;
    }
    proof {
        if all {
            assert(is_index_ranking(parents@, rank));
        } else {
            let mask = Seq::new(n as nat, |i: int| !visited@[i]);
            if index_acyclic(parents@) {
                let r = choose|r: Seq<int>| is_index_ranking(parents@, r);
                let w = choose|y: int| 0 <= y < n && !visited@[y];
                assert(mask[w]);
                let m = min_rank_index(mask, r, n as int);
                assert(!queued@[m]);
                let d = choose|d: int| 0 <= d < parents@[m]@.len() && !visited@[parents@[m]@[d] as int];
                let p = parents@[m]@[d] as int;
                assert(mask[p]);
                assert(r[p] < r[m]);
            }
        }
    }
    all
}

// ---------------------------------------------------------------------------
// Node rules and dependency resolution.

fn node_path(key: &str, suffix: &str) -> (r: String)
    ensures
        r@ == "$.nodes."@ + key@ + suffix@,
{
    let head = concat_str("$.nodes.", key);
    concat_str(head.as_str(), suffix)
}

proof fn lemma_edges_monotone(nodes: Seq<NewDagNode>, a: int, b: int)
    requires
        0 <= a <= b <= nodes.len(),
    ensures
        edges_upto(nodes, a) <= edges_upto(nodes, b),
    decreases b - a,
{
    if a < b {
        lemma_edges_monotone(nodes, a, b - 1);
    }
}

/// `"platform:" + platform`, as characters.
fn platform_capability(platform: &str) -> (r: Vec<char>)
    ensures
        r@ == "platform:"@ + platform@,
{
    let s = concat_str("platform:", platform);
    chars_of(s.as_str())
}

fn conflicts_with_platform(cap: &str, platform_cap: &Vec<char>, platform: &str) -> (r: bool)
    requires
        platform_cap@ == "platform:"@ + platform@,
    ensures
        r == platform_conflict(cap@, platform@),
{
    if !str_starts_with(cap, "platform:") {
        return false;
    }
    let c = chars_of(cap);
    !chars_eq(&c, platform_cap)
}

/// Checks one node's own rules and resolves its dependencies to node
/// indices, counting its edges on top of those of the earlier nodes.
fn check_node(input: &NewDagBuild, keys: &Vec<Vec<char>>, j: usize, edges: usize) -> (r: Result<
    (Vec<usize>, usize),
    DagContractError,
>)
    requires
        j < input.nodes@.len(),
        keys@.len() == input.nodes@.len(),
        forall|i: int| 0 <= i < input.nodes@.len() ==> (#[trigger] keys@[i])@ == key_of(input.nodes@, i),
        keys_distinct(input.nodes@),
        edges == edges_upto(input.nodes@, j as int),
        edges <= 4096,
    ensures
        r matches Ok((ps, e2)) ==> {
            &&& node_rules_hold(input.nodes@[j as int])
            &&& dependency_rules_hold(input.nodes@, j as int)
            &&& e2 == edges_upto(input.nodes@, j + 1)
            &&& e2 <= 4096
            &&& ps@.len() == input.nodes@[j as int].dependencies@.len()
            &&& forall|d: int|
                0 <= d < ps@.len() ==> #[trigger] ps@[d] < input.nodes@.len() && key_of(
                    input.nodes@,
                    ps@[d] as int,
                ) == dep_key(input.nodes@[j as int], d)
        },
        r matches Err(e) ==> dag_code_violated(*input, e.code),
        r matches Err(e) ==> node_error_at(input.nodes@, j as int) == Some(error_view(e)),
        r is Ok ==> node_error_at(input.nodes@, j as int) is None,
{
    let ghost nodes = input.nodes@;
    let node = &input.nodes[j];
    let key = node.node_key.as_str();
    if !check_text_bytes(node.required_platform.as_str(), false) {
        return Err(invalid_text(node_path(key, ".required_platform"), false));
    }
    if !check_text_bytes(node.required_trust_pool.as_str(), false) {
        return Err(invalid_text(node_path(key, ".required_trust_pool"), false));
    }
    let caps = &node.required_capabilities;
    if caps.len() > MAX_DAG_CAPABILITIES {
        return Err(
            DagContractError::new(
                DagContractErrorCode::CapabilityLimit,
                node_path(key, ".required_capabilities"),
                "capability count exceeds 64",
            ),
        );
    }
    let mut seen: Vec<Vec<char>> = Vec::new();
    let mut c: usize = 0;
    while c < caps.len()
        invariant
            *node == nodes[j as int],
            *caps == node.required_capabilities,
            nodes == input.nodes@,
            j < nodes.len(),
            c <= caps@.len(),
            seen@.len() == c,
            forall|x: int| 0 <= x < c ==> (#[trigger] seen@[x])@ == cap_of(*node, x),
            forall|x: int| 0 <= x < c ==> dag_text_ok(#[trigger] cap_of(*node, x)),
            forall|a: int, b: int| 0 <= a < b < c ==> #[trigger] cap_of(*node, a) != #[trigger] cap_of(*node, b),
            cap_errors(*node, c as int) is None,
            dag_text_ok(node.required_platform@),
            dag_text_ok(node.required_trust_pool@),
            caps@.len() <= 64,
            key@ == node.node_key@,
        decreases caps@.len() - c,
    {
        if !check_text_bytes(caps[c].as_str(), false) {
            proof {
                assert(!dag_text_ok(cap_of(nodes[j as int], c as int)));
                assert(cap_errors(*node, c + 1) is Some);
                lemma_cap_errors_stay(*node, c + 1, caps@.len() as int);
            }
            return Err(invalid_text(node_path(key, ".required_capabilities"), false));
        }
        let cs = chars_of(caps[c].as_str());
        let mut x: usize = 0;
        while x < seen.len()
            invariant
                x <= seen@.len(),
                seen@.len() == c,
                c < caps@.len(),
                *caps == node.required_capabilities,
                cs@ == cap_of(*node, c as int),
                *node == nodes[j as int],
                nodes == input.nodes@,
                j < nodes.len(),
                forall|y: int| 0 <= y < c ==> (#[trigger] seen@[y])@ == cap_of(*node, y),
                forall|y: int| 0 <= y < x ==> cap_of(*node, y) != cap_of(*node, c as int),
                cap_errors(*node, c as int) is None,
                dag_text_ok(cap_of(*node, c as int)),
                dag_text_ok(node.required_platform@),
                dag_text_ok(node.required_trust_pool@),
                caps@.len() <= 64,
                key@ == node.node_key@,
            decreases seen@.len() - x,
        {
            if chars_eq(&seen[x], &cs) {
                proof {
                    assert(cap_of(nodes[j as int], x as int) == cap_of(nodes[j as int], c as int));
                    assert(cap_errors(*node, c + 1) is Some);
                    lemma_cap_errors_stay(*node, c + 1, caps@.len() as int);
                }
                return Err(
                    DagContractError::new(
                        DagContractErrorCode::DuplicateCapability,
                        node_path(key, ".required_capabilities"),
                        "capabilities must be unique",
                    ),
                );
            }
            x = x + 1;
        }
        proof {
            assert(cap_error_at(*node, c as int) is None);
        }
        seen.push(cs);
        c = c + 1;
    }
    if node.max_attempts < 1 || node.max_attempts > 16 {
        return Err(
            DagContractError::new(
                DagContractErrorCode::RetryLimit,
                node_path(key, ".max_attempts"),
                "max_attempts must be between 1 and 16",
            ),
        );
    }
    if node.execution_spec.len() > MAX_EXECUTION_SPEC_BYTES {
        return Err(
            DagContractError::new(
                DagContractErrorCode::ExecutionSpecLimit,
                node_path(key, ".execution_spec"),
                "execution specification exceeds 262144 bytes",
            ),
        );
    }
    let platform_cap = platform_capability(node.required_platform.as_str());
    let mut c: usize = 0;
    while c < caps.len()
        invariant
            *node == nodes[j as int],
            *caps == node.required_capabilities,
            nodes == input.nodes@,
            j < nodes.len(),
            c <= caps@.len(),
            platform_cap@ == "platform:"@ + node.required_platform@,
            forall|x: int| 0 <= x < c ==> !platform_conflict(#[trigger] cap_of(*node, x), node.required_platform@),
            cap_errors(*node, caps@.len() as int) is None,
            dag_text_ok(node.required_platform@),
            dag_text_ok(node.required_trust_pool@),
            caps@.len() <= 64,
            1 <= node.max_attempts <= 16,
            node.execution_spec@.len() <= 262144,
            key@ == node.node_key@,
        decreases caps@.len() - c,
    {
        if conflicts_with_platform(caps[c].as_str(), &platform_cap, node.required_platform.as_str()) {
            proof {
                assert(platform_conflict(cap_of(nodes[j as int], c as int), nodes[j as int].required_platform@));
            }
            return Err(
                DagContractError::new(
                    DagContractErrorCode::PlatformMismatch,
                    node_path(key, ".required_capabilities"),
                    "platform capability conflicts with required_platform",
                ),
            );
        }
        c = c + 1;
    }
    let deps = &node.dependencies;
    if node.kind == DagNodeKind::Join && deps.len() < 2 {
        return Err(
            DagContractError::new(
                DagContractErrorCode::InvalidNodeKind,
                node_path(key, ".dependencies"),
                "join nodes require at least two dependencies",
            ),
        );
    }
    if node.kind == DagNodeKind::Post {
        let mut all_completed = deps.len() > 0;
        let mut d: usize = 0;
        while d < deps.len()
            invariant
                *deps == node.dependencies,
                d <= deps@.len(),
                all_completed == (deps@.len() > 0 && forall|x: int|
                    0 <= x < d ==> (#[trigger] deps@[x]).condition is Completed),
                *node == nodes[j as int],
                nodes == input.nodes@,
                j < nodes.len(),
            decreases deps@.len() - d,
        {
            if deps[d].condition != DependencyCondition::Completed {
                all_completed = false;
            }
            d = d + 1;
        }
        if !all_completed {
            return Err(
                DagContractError::new(
                    DagContractErrorCode::InvalidNodeKind,
                    node_path(key, ".dependencies"),
                    "post nodes require one or more completion dependencies",
                ),
            );
        }
    }
    let ghost rules_hold = node_rules_hold(*node);
    assert(node_rules_hold(*node));
    let mut ps: Vec<usize> = Vec::new();
    let mut count = edges;
    let mut d: usize = 0;
    while d < deps.len()
        invariant
            *node == nodes[j as int],
            *deps == node.dependencies,
            nodes == input.nodes@,
            j < nodes.len(),
            keys@.len() == nodes.len(),
            forall|i: int| 0 <= i < nodes.len() ==> (#[trigger] keys@[i])@ == key_of(nodes, i),
            keys_distinct(nodes),
            d <= deps@.len(),
            count == edges + d,
            count <= 4096,
            edges == edges_upto(nodes, j as int),
            ps@.len() == d,
            forall|x: int|
                0 <= x < d ==> #[trigger] ps@[x] < nodes.len() && key_of(nodes, ps@[x] as int)
                    == dep_key(*node, x),
            forall|x: int| 0 <= x < d ==> ps@[x] != j,
            forall|a: int, b: int| 0 <= a < b < d ==> ps@[a] != ps@[b],
            node_rules_hold(*node),
            cap_errors(*node, node.required_capabilities@.len() as int) is None,
            dep_errors(nodes, j as int, d as int) is None,
            key@ == node.node_key@,
        decreases deps@.len() - d,
    {
        if count == MAX_DAG_EDGES {
            proof {
                assert(edges_upto(nodes, j + 1) == edges + deps@.len());
                lemma_edges_monotone(nodes, j + 1, nodes.len() as int);
                assert(dep_errors(nodes, j as int, d + 1) is Some);
                lemma_dep_errors_stay(nodes, j as int, d + 1, deps@.len() as int);
            }
            return Err(
                DagContractError::new(
                    DagContractErrorCode::EdgeLimit,
                    "$.nodes".to_owned(),
                    "DAG edge count exceeds 4096",
                ),
            );
        }
        count = count + 1;
        let dk = chars_of(deps[d].node_key.as_str());
        let mut found: Option<usize> = None;
        let mut i: usize = 0;
        while i < keys.len()
            invariant
                keys@.len() == nodes.len(),
                i <= keys@.len(),
                dk@ == dep_key(*node, d as int),
                *deps == node.dependencies,
                d < deps@.len(),
                forall|y: int| 0 <= y < nodes.len() ==> (#[trigger] keys@[y])@ == key_of(nodes, y),
                match found {
                    Some(f) => f < nodes.len() && key_of(nodes, f as int) == dk@,
                    None => forall|y: int| 0 <= y < i ==> key_of(nodes, y) != dk@,
                },
            decreases keys@.len() - i,
        {
            if found.is_none() && chars_eq(&keys[i], &dk) {
                found = Some(i);
            }
            i = i + 1;
        }
        let parent = match found {
            Some(f) => f,
            None => {
                proof {
                    assert(!key_exists(nodes, dep_key(nodes[j as int], d as int)));
                    assert(dep_errors(nodes, j as int, d + 1) is Some);
                    lemma_dep_errors_stay(nodes, j as int, d + 1, deps@.len() as int);
                }
                return Err(
                    DagContractError::new(
                        DagContractErrorCode::MissingDependency,
                        node_path(key, ".dependencies"),
                        "dependency does not exist",
                    ),
                );
            },
        };
        let mut duplicate = parent == j;
        let mut x: usize = 0;
        while x < ps.len()
            invariant
                x <= ps@.len(),
                duplicate == (parent == j || exists|y: int| 0 <= y < x && ps@[y] == parent),
            decreases ps@.len() - x,
        {
            if ps[x] == parent {
                duplicate = true;
            }
            x = x + 1;
        }
        if duplicate {
            proof {
                if parent == j {
                    assert(dep_key(*node, d as int) == node.node_key@);
                } else {
                    let y = choose|y: int| 0 <= y < d && ps@[y] == parent;
                    assert(dep_key(*node, y) == dep_key(*node, d as int));
                }
                assert(!dependency_rules_hold(nodes, j as int));
                assert(key_exists(nodes, dep_key(*node, d as int))) by {
                    assert(key_of(nodes, parent as int) == dep_key(*node, d as int));
                }
                assert(dep_errors(nodes, j as int, d + 1) is Some);
                lemma_dep_errors_stay(nodes, j as int, d + 1, deps@.len() as int);
            }
            return Err(
                DagContractError::new(
                    DagContractErrorCode::DuplicateDependency,
                    node_path(key, ".dependencies"),
                    "dependencies must be distinct and cannot reference the node itself",
                ),
            );
        }
        proof {
            assert(key_exists(nodes, dep_key(*node, d as int))) by {
                assert(key_of(nodes, parent as int) == dep_key(*node, d as int));
            }
            if dep_key(*node, d as int) == node.node_key@ {
                if (parent as int) < (j as int) {
                    assert(key_of(nodes, parent as int) != key_of(nodes, j as int));
                } else {
                    assert(key_of(nodes, j as int) != key_of(nodes, parent as int));
                }
            }
            assert forall|y: int| 0 <= y < d implies #[trigger] dep_key(*node, y) != dep_key(*node, d as int) by {
                if dep_key(*node, y) == dep_key(*node, d as int) {
                    let py = ps@[y] as int;
                    assert(key_of(nodes, py) == key_of(nodes, parent as int));
                    if py < parent {
                        assert(key_of(nodes, py) != key_of(nodes, parent as int));
                    } else if py > parent {
                        assert(key_of(nodes, parent as int) != key_of(nodes, py));
                    }
                }
            }
            assert(dep_error_at(nodes, j as int, d as int) is None);
        }
        ps.push(parent);
        d = d + 1;
    }
    proof {
        assert forall|x: int| 0 <= x < deps@.len() implies key_exists(nodes, #[trigger] dep_key(*node, x)) by {
            assert(key_of(nodes, ps@[x] as int) == dep_key(*node, x));
        }
        assert forall|x: int| 0 <= x < deps@.len() implies #[trigger] dep_key(*node, x) != node.node_key@ by {
            if dep_key(*node, x) == node.node_key@ {
                assert(key_of(nodes, ps@[x] as int) == key_of(nodes, j as int));
            }
        }
        assert forall|a: int, b: int| 0 <= a < b < deps@.len() implies #[trigger] dep_key(*node, a) != #[trigger] dep_key(*node, b) by {
            if dep_key(*node, a) == dep_key(*node, b) {
                assert(key_of(nodes, ps@[a] as int) == key_of(nodes, ps@[b] as int));
            }
        }
    }
    Ok((ps, count))
}

proof fn lemma_rankings_agree(nodes: Seq<NewDagNode>, parents: Seq<Vec<usize>>, rank: Seq<int>)
    requires
        parents.len() == nodes.len(),
        keys_distinct(nodes),
        forall|j: int| 0 <= j < nodes.len() ==> (#[trigger] parents[j])@.len() == nodes[j].dependencies@.len(),
        forall|j: int, d: int|
            0 <= j < nodes.len() && 0 <= d < parents[j]@.len() ==> #[trigger] parents[j]@[d]
                < nodes.len() && key_of(nodes, parents[j]@[d] as int) == dep_key(nodes[j], d),
    ensures
        is_index_ranking(parents, rank) <==> is_dependency_ranking(nodes, rank),
{
    if is_index_ranking(parents, rank) {
        assert forall|j: int, d: int, i: int|
            0 <= j < nodes.len() && 0 <= d < nodes[j].dependencies@.len() && 0 <= i < nodes.len()
                && #[trigger] key_of(nodes, i) == #[trigger] dep_key(nodes[j], d) implies rank[i] < rank[j] by {
            let p = parents[j]@[d] as int;
            if i != p {
                if i < p {
                    assert(key_of(nodes, i) != key_of(nodes, p));
                } else {
                    assert(key_of(nodes, p) != key_of(nodes, i));
                }
            }
        }
    }
    if is_dependency_ranking(nodes, rank) {
        assert forall|j: int, d: int|
            0 <= j < parents.len() && 0 <= d < parents[j]@.len() implies rank[#[trigger] parents[j]@[d] as int]
                < rank[j] by {
            let p = parents[j]@[d] as int;
            assert(key_of(nodes, p) == dep_key(nodes[j], d));
        }
    }
}

/// Every rule that an error code reports is part of the contract.
pub proof fn lemma_violation_breaks_contract(input: NewDagBuild, code: DagContractErrorCode)
    requires
        dag_code_violated(input, code),
    ensures
        !dag_contract_holds(input),
{
    let nodes = input.nodes@;
    if dag_contract_holds(input) {
        match code {
            DagContractErrorCode::InvalidText => {
                if !dag_text_ok(input.idempotency_key@) {
                } else {
                    let j = choose|j: int|
                        0 <= j < nodes.len() && {
                            let n = #[trigger] nodes[j];
                            ||| !node_key_ok(n.node_key@)
                            ||| !dag_text_ok(n.required_platform@)
                            ||| !dag_text_ok(n.required_trust_pool@)
                            ||| exists|c: int|
                                0 <= c < n.required_capabilities@.len() && !dag_text_ok(
                                    #[trigger] cap_of(n, c),
                                )
                        };
                    assert(node_key_ok(key_of(nodes, j)));
                    assert(node_rules_hold(nodes[j]));
                }
            },
            DagContractErrorCode::CapabilityLimit => {
                let j = choose|j: int|
                    0 <= j < nodes.len() && (#[trigger] nodes[j]).required_capabilities@.len() > 64;
                assert(node_rules_hold(nodes[j]));
            },
            DagContractErrorCode::DuplicateCapability => {
                let (j, a, b) = choose|j: int, a: int, b: int|
                    0 <= j < nodes.len() && 0 <= a < b < nodes[j].required_capabilities@.len()
                        && #[trigger] cap_of(nodes[j], a) == #[trigger] cap_of(nodes[j], b);
                assert(node_rules_hold(nodes[j]));
            },
            DagContractErrorCode::RetryLimit => {
                let j = choose|j: int|
                    0 <= j < nodes.len() && !(1 <= (#[trigger] nodes[j]).max_attempts <= 16);
                assert(node_rules_hold(nodes[j]));
            },
            DagContractErrorCode::ExecutionSpecLimit => {
                let j = choose|j: int|
                    0 <= j < nodes.len() && (#[trigger] nodes[j]).execution_spec@.len() > 262144;
                assert(node_rules_hold(nodes[j]));
            },
            DagContractErrorCode::PlatformMismatch => {
                let (j, c) = choose|j: int, c: int|
                    0 <= j < nodes.len() && 0 <= c < nodes[j].required_capabilities@.len()
                        && platform_conflict(
                        #[trigger] cap_of(nodes[j], c),
                        nodes[j].required_platform@,
                    );
                assert(node_rules_hold(nodes[j]));
            },
            DagContractErrorCode::InvalidNodeKind => {
                let j = choose|j: int|
                    0 <= j < nodes.len() && {
                        let n = #[trigger] nodes[j];
                        ||| n.kind is Join && n.dependencies@.len() < 2
                        ||| n.kind is Post && (n.dependencies@.len() == 0 || exists|d: int|
                            0 <= d < n.dependencies@.len() && !((#[trigger] n.dependencies@[d]).condition is Completed))
                    };
                assert(node_rules_hold(nodes[j]));
            },
            DagContractErrorCode::MissingDependency => {
                let (j, d) = choose|j: int, d: int|
                    0 <= j < nodes.len() && 0 <= d < nodes[j].dependencies@.len() && !key_exists(
                        nodes,
                        #[trigger] dep_key(nodes[j], d),
                    );
                assert(dependency_rules_hold(nodes, j));
            },
            DagContractErrorCode::DuplicateDependency => {
                let j = choose|j: int|
                    0 <= j < nodes.len() && !(#[trigger] dependency_rules_hold(nodes, j));
            },
            _ => {},
        }
    }
}

/// `b` lists the nodes of `a` in another order: `b[i]` is `a[p[i]]`, and
/// `q` undoes `p`.
pub open spec fn is_reordering(a: Seq<NewDagNode>, b: Seq<NewDagNode>, p: Seq<int>, q: Seq<int>) -> bool {
    &&& a.len() == b.len()
    &&& p.len() == b.len()
    &&& q.len() == a.len()
    &&& forall|i: int| 0 <= i < b.len() ==> 0 <= #[trigger] p[i] < a.len() && b[i] == a[p[i]] && q[p[i]] == i
    &&& forall|i: int| 0 <= i < a.len() ==> 0 <= #[trigger] q[i] < b.len() && a[i] == b[q[i]] && p[q[i]] == i
}

proof fn lemma_edges_prefix(a: Seq<NewDagNode>, b: Seq<NewDagNode>, k: int)
    requires
        0 <= k <= a.len(),
        k <= b.len(),
        forall|i: int| 0 <= i < k ==> a[i] == b[i],
    ensures
        edges_upto(a, k) == edges_upto(b, k),
    decreases k,
{
    if k > 0 {
        lemma_edges_prefix(a, b, k - 1);
    }
}

proof fn lemma_edges_remove(a: Seq<NewDagNode>, r: int)
    requires
        0 <= r < a.len(),
    ensures
        edges_upto(a, a.len() as int) == edges_upto(a.remove(r), a.len() - 1) + a[r].dependencies@.len(),
    decreases a.len(),
{
    let n = a.len() as int;
    if r == n - 1 {
        lemma_edges_prefix(a, a.remove(r), n - 1);
    } else {
        let a2 = a.drop_last();
        lemma_edges_remove(a2, r);
        lemma_edges_prefix(a, a2, n - 1);
        lemma_edges_prefix(a.remove(r), a2.remove(r), n - 2);
        assert(a.remove(r)[n - 2] == a[n - 1]);
    }
}

/// The edge count of all nodes does not depend on their order.
proof fn lemma_edges_reordered(a: Seq<NewDagNode>, b: Seq<NewDagNode>, p: Seq<int>)
    requires
        a.len() == b.len(),
        p.len() == b.len(),
        forall|i: int| 0 <= i < b.len() ==> 0 <= #[trigger] p[i] < a.len() && b[i] == a[p[i]],
        forall|i: int, j: int| 0 <= i < j < b.len() ==> #[trigger] p[i] != #[trigger] p[j],
    ensures
        edges_upto(a, a.len() as int) == edges_upto(b, b.len() as int),
    decreases b.len(),
{
    let n = b.len() as int;
    if n > 0 {
        let r = p[n - 1];
        let a2 = a.remove(r);
        let b2 = b.drop_last();
        let p2 = Seq::new((n - 1) as nat, |i: int| if p[i] < r { p[i] } else { p[i] - 1 });
        assert forall|i: int| 0 <= i < b2.len() implies 0 <= #[trigger] p2[i] < a2.len() && b2[i] == a2[p2[i]] by {
            assert(p[i] != p[n - 1]);
        }
        assert forall|i: int, j: int| 0 <= i < j < b2.len() implies #[trigger] p2[i] != #[trigger] p2[j] by {
            assert(p[i] != p[j]);
            assert(p[i] != r && p[j] != r);
        }
        lemma_edges_reordered(a2, b2, p2);
        lemma_edges_remove(a, r);
        lemma_edges_prefix(b, b2, n - 1);
    }
}

proof fn lemma_contract_transfers(x: NewDagBuild, y: NewDagBuild, p: Seq<int>, q: Seq<int>)
    requires
        x.idempotency_key@ == y.idempotency_key@,
        is_reordering(x.nodes@, y.nodes@, p, q),
        dag_contract_holds(x),
    ensures
        dag_contract_holds(y),
{
    let a = x.nodes@;
    let b = y.nodes@;
    assert forall|j: int| 0 <= j < b.len() implies node_key_ok(#[trigger] key_of(b, j)) by {
        assert(node_key_ok(key_of(a, p[j])));
    }
    assert forall|i: int, j: int| 0 <= i < j < b.len() implies #[trigger] key_of(b, i) != #[trigger] key_of(b, j) by {
        if p[i] < p[j] {
            assert(key_of(a, p[i]) != key_of(a, p[j]));
        } else if p[j] < p[i] {
            assert(key_of(a, p[j]) != key_of(a, p[i]));
        } else {
            assert(q[p[i]] == i && q[p[j]] == j);
        }
    }
    assert forall|j: int| 0 <= j < b.len() implies node_rules_hold(#[trigger] b[j]) by {
        assert(node_rules_hold(a[p[j]]));
    }
    assert forall|k: Seq<char>| key_exists(a, k) ==> key_exists(b, k) by {
        if key_exists(a, k) {
            let i = choose|i: int| 0 <= i < a.len() && #[trigger] key_of(a, i) == k;
            assert(key_of(b, q[i]) == k);
        }
    }
    assert forall|j: int| 0 <= j < b.len() implies #[trigger] dependency_rules_hold(b, j) by {
        assert(dependency_rules_hold(a, p[j]));
        let n = b[j];
        assert forall|d: int| 0 <= d < n.dependencies@.len() implies key_exists(b, #[trigger] dep_key(n, d)) by {
            assert(key_exists(a, dep_key(a[p[j]], d)));
        }
    }
    assert forall|i: int, j: int| 0 <= i < j < b.len() implies #[trigger] p[i] != #[trigger] p[j] by {
        if p[i] == p[j] {
            assert(q[p[i]] == i && q[p[j]] == j);
        }
    }
    lemma_edges_reordered(a, b, p);
    let rank_a = choose|rank: Seq<int>| is_dependency_ranking(a, rank);
    let rank_b = Seq::new(b.len(), |i: int| rank_a[p[i]]);
    assert forall|j: int, d: int, i: int|
        0 <= j < b.len() && 0 <= d < b[j].dependencies@.len() && 0 <= i < b.len()
            && #[trigger] key_of(b, i) == #[trigger] dep_key(b[j], d) implies rank_b[i] < rank_b[j] by {
        assert(key_of(a, p[i]) == dep_key(a[p[j]], d));
    }
    assert(is_dependency_ranking(b, rank_b));
}

/// Whether a DAG contract is accepted does not depend on the order in which
/// its nodes are listed.
pub proof fn law_dag_contract_ignores_node_order(x: NewDagBuild, y: NewDagBuild, p: Seq<int>, q: Seq<int>)
    requires
        x.idempotency_key@ == y.idempotency_key@,
        is_reordering(x.nodes@, y.nodes@, p, q),
    ensures
        dag_contract_holds(x) == dag_contract_holds(y),
{
    if dag_contract_holds(x) {
        lemma_contract_transfers(x, y, p, q);
    }
    if dag_contract_holds(y) {
        lemma_contract_transfers(y, x, q, p);
    }
}

/// Validates the complete bounded DAG contract without requiring a database.
pub fn validate_dag_contract(input: &NewDagBuild) -> (r: Result<(), DagContractError>)
    ensures
        r is Ok <==> dag_contract_holds(*input),
        r matches Err(e) ==> dag_code_violated(*input, e.code),
        r is Ok <==> dag_error(*input) is None,
        r matches Err(e) ==> dag_error(*input) == Some(error_view(e)),
{
    let ghost nodes = input.nodes@;
    if let Err(e) = validate_text("$.idempotency_key", input.idempotency_key.as_str()) {
        return Err(e);
    }
    let n = input.nodes.len();
    if n == 0 || n > MAX_DAG_NODES {
        return Err(
            DagContractError::new(
                DagContractErrorCode::NodeLimit,
                "$.nodes".to_owned(),
                "DAG node count must be between 1 and 256",
            ),
        );
    }
    let mut keys: Vec<Vec<char>> = Vec::new();
    let mut j: usize = 0;
    while j < n
        invariant
            n == nodes.len(),
            nodes == input.nodes@,
            j <= n,
            keys@.len() == j,
            forall|i: int| 0 <= i < j ==> (#[trigger] keys@[i])@ == key_of(nodes, i),
            forall|i: int| 0 <= i < j ==> node_key_ok(#[trigger] key_of(nodes, i)),
            forall|a: int, b: int| 0 <= a < b < j ==> #[trigger] key_of(nodes, a) != #[trigger] key_of(nodes, b),
            key_errors(nodes, j as int) is None,
            dag_text_ok(input.idempotency_key@),
            1 <= n <= 256,
        decreases n - j,
    {
        let key = input.nodes[j].node_key.as_str();
        if !check_text_bytes(key, true) {
            proof {
                assert(!node_key_ok(key_of(nodes, j as int)));
                assert(key_errors(nodes, j + 1) is Some);
                lemma_key_errors_stay(nodes, j + 1, n as int);
            }
            return Err(invalid_text("$.nodes.node_key".to_owned(), true));
        }
        let kc = chars_of(key);
        let mut x: usize = 0;
        while x < keys.len()
            invariant
                x <= keys@.len(),
                keys@.len() == j,
                j < nodes.len(),
                nodes == input.nodes@,
                kc@ == key_of(nodes, j as int),
                forall|i: int| 0 <= i < j ==> (#[trigger] keys@[i])@ == key_of(nodes, i),
                forall|i: int| 0 <= i < x ==> key_of(nodes, i) != key_of(nodes, j as int),
                key_errors(nodes, j as int) is None,
                node_key_ok(key_of(nodes, j as int)),
                dag_text_ok(input.idempotency_key@),
                1 <= n <= 256,
                n == nodes.len(),
                key@ == key_of(nodes, j as int),
            decreases keys@.len() - x,
        {
            if chars_eq(&keys[x], &kc) {
                proof {
                    assert(key_of(nodes, x as int) == key_of(nodes, j as int));
                    assert(key_errors(nodes, j + 1) is Some);
                    lemma_key_errors_stay(nodes, j + 1, n as int);
                    reveal_strlit("");
                    assert(""@ =~= Seq::<char>::empty());
                    assert(("$.nodes."@ + key@ + ""@) =~= node_field_path(nodes[j as int], Seq::empty()));
                }
                return Err(
                    DagContractError::new(
                        DagContractErrorCode::DuplicateNode,
                        node_path(key, ""),
                        "DAG node keys must be unique",
                    ),
                );
            }
            x = x + 1;
        }
        proof {
            assert(key_error_at(nodes, j as int) is None);
        }
        keys.push(kc);
        j = j + 1;
    }
    let mut parents: Vec<Vec<usize>> = Vec::new();
    let mut edges: usize = 0;
    let mut j: usize = 0;
    while j < n
        invariant
            n == nodes.len(),
            nodes == input.nodes@,
            j <= n,
            keys@.len() == n,
            forall|i: int| 0 <= i < n ==> (#[trigger] keys@[i])@ == key_of(nodes, i),
            forall|i: int| 0 <= i < n ==> node_key_ok(#[trigger] key_of(nodes, i)),
            keys_distinct(nodes),
            dag_text_ok(input.idempotency_key@),
            1 <= n <= 256,
            edges == edges_upto(nodes, j as int),
            edges <= 4096,
            parents@.len() == j,
            forall|i: int| 0 <= i < j ==> node_rules_hold(#[trigger] nodes[i]),
            forall|i: int| 0 <= i < j ==> #[trigger] dependency_rules_hold(nodes, i),
            forall|i: int| 0 <= i < j ==> (#[trigger] parents@[i])@.len() == nodes[i].dependencies@.len(),
            forall|i: int, d: int|
                0 <= i < j && 0 <= d < parents@[i]@.len() ==> #[trigger] parents@[i]@[d] < n
                    && key_of(nodes, parents@[i]@[d] as int) == dep_key(nodes[i], d),
            key_errors(nodes, n as int) is None,
            node_errors(nodes, j as int) is None,
        decreases n - j,
    {
        match check_node(input, &keys, j, edges) {
            Ok((ps, e2)) => {
                parents.push(ps);
                edges = e2;
            },
            Err(e) => {
                proof {
                    lemma_violation_breaks_contract(*input, e.code);
                    assert(node_errors(nodes, j + 1) is Some);
                    lemma_node_errors_stay(nodes, j + 1, n as int);
                }
                return Err(e);
            },
        }
        j = j + 1;
    }
    let acyclic = acyclic_by_peeling(&parents);
    proof {
        if acyclic {
            let rank = choose|rank: Seq<int>| is_index_ranking(parents@, rank);
            lemma_rankings_agree(nodes, parents@, rank);
            assert(is_dependency_ranking(nodes, rank));
        } else if dag_acyclic(nodes) {
            let rank = choose|rank: Seq<int>| is_dependency_ranking(nodes, rank);
            lemma_rankings_agree(nodes, parents@, rank);
            assert(is_index_ranking(parents@, rank));
        }
    }
    if !acyclic {
        return Err(
            DagContractError::new(
                DagContractErrorCode::Cycle,
                "$.nodes".to_owned(),
                "DAG contains a dependency cycle",
            ),
        );
    }
    Ok(())
}

// ---------------------------------------------------------------------------
// Matrix expansion.

pub open spec fn axis_name(axes: Seq<(String, Vec<String>)>, a: int) -> Seq<char> {
    axes[a].0@
}

pub open spec fn axis_values(axes: Seq<(String, Vec<String>)>, a: int) -> Seq<Seq<char>> {
    views(axes[a].1@)
}

/// Product of the value counts of the first `k` axes.
pub open spec fn prefix_prod(axes: Seq<(String, Vec<String>)>, k: int) -> int
    decreases k,
{
    if k <= 0 {
        1
    } else {
        prefix_prod(axes, k - 1) * axes[k - 1].1@.len()
    }
}

/// Product of the value counts of the axes from `a` on.
pub open spec fn suffix_prod(axes: Seq<(String, Vec<String>)>, a: int) -> int
    decreases axes.len() - a,
{
    if a >= axes.len() || a < 0 {
        1
    } else {
        axes[a].1@.len() * suffix_prod(axes, a + 1)
    }
}

/// Position on axis `a` of cell `k`: the last axis varies fastest.
pub open spec fn cell_coord(axes: Seq<(String, Vec<String>)>, a: int, k: int) -> int {
    (k / suffix_prod(axes, a + 1)) % (axes[a].1@.len() as int)
}

pub open spec fn cell_value(axes: Seq<(String, Vec<String>)>, a: int, k: int) -> Seq<char> {
    sorted_text(axis_values(axes, a))[cell_coord(axes, a, k)]
}

/// `axis=value` pairs of the first `m` axes of cell `k`, joined by commas.
pub open spec fn cell_dims(axes: Seq<(String, Vec<String>)>, k: int, m: int) -> Seq<char>
    decreases m,
{
    if m <= 0 {
        Seq::empty()
    } else if m == 1 {
        axis_name(axes, 0) + "="@ + cell_value(axes, 0, k)
    } else {
        cell_dims(axes, k, m - 1) + ","@ + axis_name(axes, m - 1) + "="@ + cell_value(
            axes,
            m - 1,
            k,
        )
    }
}

pub open spec fn cell_key(prefix: Seq<char>, axes: Seq<(String, Vec<String>)>, k: int) -> Seq<
    char,
> {
    prefix + "["@ + cell_dims(axes, k, axes.len() as int) + "]"@
}

/// The axes rules: text, counts, distinct values, and at most 256 cells.
pub open spec fn matrix_axes_valid(prefix: Seq<char>, axes: Seq<(String, Vec<String>)>) -> bool {
    &&& dag_text_ok(prefix)
    &&& 1 <= axes.len() <= 8
    &&& forall|a: int| 0 <= a < axes.len() ==> dag_text_ok(#[trigger] axis_name(axes, a))
    &&& forall|a: int| 0 <= a < axes.len() ==> 1 <= (#[trigger] axes[a]).1@.len() <= 32
    &&& forall|a: int, i: int|
        0 <= a < axes.len() && 0 <= i < axes[a].1@.len() ==> dag_text_ok(
            #[trigger] axis_values(axes, a)[i],
        )
    &&& forall|a: int| 0 <= a < axes.len() ==> (#[trigger] axis_values(axes, a)).no_duplicates()
    &&& prefix_prod(axes, axes.len() as int) <= 256
}

pub open spec fn matrix_holds(prefix: Seq<char>, axes: Seq<(String, Vec<String>)>) -> bool {
    &&& matrix_axes_valid(prefix, axes)
    &&& forall|k: int| 0 <= k < suffix_prod(axes, 0) ==> node_key_ok(#[trigger] cell_key(prefix, axes, k))
}

pub open spec fn matrix_code_violated(
    prefix: Seq<char>,
    axes: Seq<(String, Vec<String>)>,
    code: DagContractErrorCode,
) -> bool {
    match code {
        DagContractErrorCode::InvalidText => {
            ||| !dag_text_ok(prefix)
            ||| exists|a: int| 0 <= a < axes.len() && !dag_text_ok(#[trigger] axis_name(axes, a))
            ||| exists|a: int, i: int|
                0 <= a < axes.len() && 0 <= i < axes[a].1@.len() && !dag_text_ok(
                    #[trigger] axis_values(axes, a)[i],
                )
            ||| exists|k: int| 0 <= k < suffix_prod(axes, 0) && !node_key_ok(#[trigger] cell_key(prefix, axes, k))
        },
        DagContractErrorCode::MatrixAxisLimit => !(1 <= axes.len() <= 8),
        DagContractErrorCode::MatrixValueLimit => exists|a: int|
            0 <= a < axes.len() && !(1 <= (#[trigger] axes[a]).1@.len() <= 32),
        DagContractErrorCode::DuplicateMatrixValue => exists|a: int|
            0 <= a < axes.len() && !(#[trigger] axis_values(axes, a)).no_duplicates(),
        DagContractErrorCode::MatrixCellLimit => exists|k: int|
            0 <= k <= axes.len() && #[trigger] prefix_prod(axes, k) > 256,
        _ => false,
    }
}

/// What an invalid DAG or matrix text is told.
pub open spec fn text_message() -> Seq<char> {
    "must be bounded ASCII letters, digits, dot, underscore, or hyphen"@
}

/// What an invalid node key is told.
pub open spec fn key_message() -> Seq<char> {
    "must be a bounded canonical DAG node key"@
}

/// A contract error as its code, path and message.
pub open spec fn error_view(e: DagContractError) -> (DagContractErrorCode, Seq<char>, Seq<char>) {
    (e.code, e.path@, e.message@)
}

/// The error for axis `a`, once the axes before it passed: its name, its
/// value count, its values' text, their uniqueness, and the running cell
/// product, in that order.
pub open spec fn axis_error(axes: Seq<(String, Vec<String>)>, a: int) -> Option<
    (DagContractErrorCode, Seq<char>, Seq<char>),
> {
    let path = "$.axes."@ + axis_name(axes, a);
    let n = axes[a].1@.len();
    if !dag_text_ok(axis_name(axes, a)) {
        Some((DagContractErrorCode::InvalidText, path, text_message()))
    } else if !(1 <= n <= 32) {
        Some((DagContractErrorCode::MatrixValueLimit, path, "matrix values per axis must be between 1 and 32"@))
    } else if exists|i: int| 0 <= i < n && !dag_text_ok(#[trigger] axis_values(axes, a)[i]) {
        Some((DagContractErrorCode::InvalidText, path, text_message()))
    } else if !axis_values(axes, a).no_duplicates() {
        Some((DagContractErrorCode::DuplicateMatrixValue, path, "matrix values must be unique"@))
    } else if prefix_prod(axes, a + 1) > 256 {
        Some((DagContractErrorCode::MatrixCellLimit, "$.axes"@, "matrix product exceeds 256 cells"@))
    } else {
        None
    }
}

/// The first axis error among the first `k` axes.
pub open spec fn axes_error(axes: Seq<(String, Vec<String>)>, k: int) -> Option<
    (DagContractErrorCode, Seq<char>, Seq<char>),
>
    decreases k,
{
    if k <= 0 {
        None
    } else {
        match axes_error(axes, k - 1) {
            Some(e) => Some(e),
            None => axis_error(axes, k - 1),
        }
    }
}

/// The error `compile_matrix` answers, if any: the first rule broken in
/// check order, with its path and message.
pub open spec fn matrix_error(prefix: Seq<char>, axes: Seq<(String, Vec<String>)>) -> Option<
    (DagContractErrorCode, Seq<char>, Seq<char>),
> {
    if !dag_text_ok(prefix) {
        Some((DagContractErrorCode::InvalidText, "$.node_prefix"@, text_message()))
    } else if !(1 <= axes.len() <= 8) {
        Some((DagContractErrorCode::MatrixAxisLimit, "$.axes"@, "matrix axis count must be between 1 and 8"@))
    } else if axes_error(axes, axes.len() as int) is Some {
        axes_error(axes, axes.len() as int)
    } else if exists|k: int| 0 <= k < suffix_prod(axes, 0) && !node_key_ok(#[trigger] cell_key(prefix, axes, k)) {
        Some((DagContractErrorCode::InvalidText, "$.node_key"@, key_message()))
    } else {
        None
    }
}

proof fn lemma_axis_fails(
    prefix: Seq<char>,
    axes: Seq<(String, Vec<String>)>,
    a: int,
    e: (DagContractErrorCode, Seq<char>, Seq<char>),
)
    requires
        dag_text_ok(prefix),
        1 <= axes.len() <= 8,
        0 <= a < axes.len(),
        axes_error(axes, a) is None,
        axis_error(axes, a) == Some(e),
    ensures
        matrix_error(prefix, axes) == Some(e),
{
    lemma_axes_error_stays(axes, a + 1, axes.len() as int);
}

proof fn lemma_axes_error_stays(axes: Seq<(String, Vec<String>)>, k: int, m: int)
    requires
        0 <= k <= m,
        axes_error(axes, k) is Some,
    ensures
        axes_error(axes, m) == axes_error(axes, k),
    decreases m - k,
{
    if k < m {
        lemma_axes_error_stays(axes, k, m - 1);
    }
}

proof fn lemma_prefix_suffix(axes: Seq<(String, Vec<String>)>, k: int)
    requires
        0 <= k <= axes.len(),
    ensures
        prefix_prod(axes, k) * suffix_prod(axes, k) == suffix_prod(axes, 0),
    decreases k,
{
    if k > 0 {
        lemma_prefix_suffix(axes, k - 1);
        let p = prefix_prod(axes, k - 1);
        let l = axes[k - 1].1@.len() as int;
        let s = suffix_prod(axes, k);
        assert(suffix_prod(axes, k - 1) == l * s);
        assert(p * (l * s) == (p * l) * s) by (nonlinear_arith);
    }
}

proof fn lemma_products_positive(axes: Seq<(String, Vec<String>)>, k: int)
    requires
        0 <= k <= axes.len(),
        forall|a: int| 0 <= a < axes.len() ==> 1 <= (#[trigger] axes[a]).1@.len(),
    ensures
        prefix_prod(axes, k) >= 1,
        suffix_prod(axes, k) >= 1,
    decreases axes.len() - k,
{
    lemma_prefix_positive(axes, k);
    if k < axes.len() {
        lemma_products_positive(axes, k + 1);
        let l = axes[k].1@.len() as int;
        let s = suffix_prod(axes, k + 1);
        assert(l * s >= 1) by (nonlinear_arith)
            requires
                l >= 1,
                s >= 1,
        ;
    }
}

proof fn lemma_prefix_positive(axes: Seq<(String, Vec<String>)>, k: int)
    requires
        0 <= k <= axes.len(),
        forall|a: int| 0 <= a < axes.len() ==> 1 <= (#[trigger] axes[a]).1@.len(),
    ensures
        prefix_prod(axes, k) >= 1,
    decreases k,
{
    if k > 0 {
        lemma_prefix_positive(axes, k - 1);
        let p = prefix_prod(axes, k - 1);
        let l = axes[k - 1].1@.len() as int;
        assert(p * l >= 1) by (nonlinear_arith)
            requires
                l >= 1,
                p >= 1,
        ;
    }
}

proof fn lemma_prefix_monotone(axes: Seq<(String, Vec<String>)>, i: int, j: int)
    requires
        0 <= i <= j <= axes.len(),
        forall|a: int| 0 <= a < axes.len() ==> 1 <= (#[trigger] axes[a]).1@.len(),
    ensures
        prefix_prod(axes, i) <= prefix_prod(axes, j),
    decreases j - i,
{
    if i < j {
        lemma_prefix_monotone(axes, i, j - 1);
        lemma_prefix_positive(axes, j - 1);
        let p = prefix_prod(axes, j - 1);
        let l = axes[j - 1].1@.len() as int;
        assert(p <= p * l) by (nonlinear_arith)
            requires
                l >= 1,
                p >= 1,
        ;
    }
}

proof fn lemma_suffix_bounded(axes: Seq<(String, Vec<String>)>, k: int)
    requires
        0 <= k <= axes.len(),
        forall|a: int| 0 <= a < axes.len() ==> 1 <= (#[trigger] axes[a]).1@.len(),
    ensures
        suffix_prod(axes, k) <= suffix_prod(axes, 0),
{
    lemma_prefix_suffix(axes, k);
    lemma_products_positive(axes, k);
    let p = prefix_prod(axes, k);
    let s = suffix_prod(axes, k);
    assert(s <= p * s) by (nonlinear_arith)
        requires
            p >= 1,
            s >= 1,
    ;
}

fn axis_path(axis: &str) -> (r: String)
    ensures
        r@ == "$.axes."@ + axis@,
{
    concat_str("$.axes.", axis)
}

/// Two axis lists name the same axes in the same order, each with the same
/// values, each value as often, in any order.
pub open spec fn same_axes_up_to_value_order(a: Seq<(String, Vec<String>)>, b: Seq<(String, Vec<String>)>) -> bool {
    &&& a.len() == b.len()
    &&& forall|x: int| 0 <= x < a.len() ==> #[trigger] axis_name(a, x) == axis_name(b, x)
    &&& forall|x: int|
        0 <= x < a.len() ==> (#[trigger] axis_values(a, x)).to_multiset() == axis_values(b, x).to_multiset()
}

proof fn lemma_same_value_counts(a: Seq<(String, Vec<String>)>, b: Seq<(String, Vec<String>)>, x: int)
    requires
        same_axes_up_to_value_order(a, b),
        0 <= x < a.len(),
    ensures
        a[x].1@.len() == b[x].1@.len(),
        sorted_text(axis_values(a, x)) == sorted_text(axis_values(b, x)),
        axis_values(a, x).no_duplicates() == axis_values(b, x).no_duplicates(),
        (exists|i: int| 0 <= i < a[x].1@.len() && !dag_text_ok(#[trigger] axis_values(a, x)[i])) == (exists|
            i: int,
        | 0 <= i < b[x].1@.len() && !dag_text_ok(#[trigger] axis_values(b, x)[i])),
{
    let va = axis_values(a, x);
    let vb = axis_values(b, x);
    assert(va.to_multiset() == vb.to_multiset());
    vstd::seq_lib::to_multiset_len(va);
    vstd::seq_lib::to_multiset_len(vb);
    let leq = |p: Seq<char>, q: Seq<char>| text_le(p, q);
    lemma_text_le_total();
    va.lemma_sort_by_ensures(leq);
    let t = va.sort_by(leq);
    lemma_sorted_is_sorted_text(t, va);
    lemma_sorted_is_sorted_text(t, vb);
    if va.no_duplicates() {
        va.lemma_multiset_has_no_duplicates();
        vb.lemma_multiset_has_no_duplicates_conv();
    }
    if vb.no_duplicates() {
        vb.lemma_multiset_has_no_duplicates();
        va.lemma_multiset_has_no_duplicates_conv();
    }
    if exists|i: int| 0 <= i < a[x].1@.len() && !dag_text_ok(#[trigger] va[i]) {
        let i = choose|i: int| 0 <= i < a[x].1@.len() && !dag_text_ok(#[trigger] va[i]);
        vstd::seq_lib::to_multiset_contains(va, va[i]);
        vstd::seq_lib::to_multiset_contains(vb, va[i]);
        assert(va.contains(va[i]));
        let j = choose|j: int| 0 <= j < vb.len() && vb[j] == va[i];
        assert(!dag_text_ok(vb[j]));
    }
    if exists|i: int| 0 <= i < b[x].1@.len() && !dag_text_ok(#[trigger] vb[i]) {
        let i = choose|i: int| 0 <= i < b[x].1@.len() && !dag_text_ok(#[trigger] vb[i]);
        vstd::seq_lib::to_multiset_contains(va, vb[i]);
        vstd::seq_lib::to_multiset_contains(vb, vb[i]);
        assert(vb.contains(vb[i]));
        let j = choose|j: int| 0 <= j < va.len() && va[j] == vb[i];
        assert(!dag_text_ok(va[j]));
    }
}

proof fn lemma_same_products(a: Seq<(String, Vec<String>)>, b: Seq<(String, Vec<String>)>, k: int)
    requires
        same_axes_up_to_value_order(a, b),
        0 <= k <= a.len(),
    ensures
        prefix_prod(a, k) == prefix_prod(b, k),
        suffix_prod(a, k) == suffix_prod(b, k),
    decreases a.len() - k,
{
    lemma_same_prefix(a, b, k);
    if k < a.len() {
        lemma_same_products(a, b, k + 1);
        lemma_same_value_counts(a, b, k);
    }
}

proof fn lemma_same_prefix(a: Seq<(String, Vec<String>)>, b: Seq<(String, Vec<String>)>, k: int)
    requires
        same_axes_up_to_value_order(a, b),
        0 <= k <= a.len(),
    ensures
        prefix_prod(a, k) == prefix_prod(b, k),
    decreases k,
{
    if k > 0 {
        lemma_same_prefix(a, b, k - 1);
        lemma_same_value_counts(a, b, k - 1);
    }
}

proof fn lemma_same_dims(a: Seq<(String, Vec<String>)>, b: Seq<(String, Vec<String>)>, k: int, m: int)
    requires
        same_axes_up_to_value_order(a, b),
        0 <= m <= a.len(),
    ensures
        cell_dims(a, k, m) == cell_dims(b, k, m),
        forall|x: int| 0 <= x < m ==> #[trigger] cell_value(a, x, k) == cell_value(b, x, k),
    decreases m,
{
    if m > 0 {
        lemma_same_dims(a, b, k, m - 1);
        let x = m - 1;
        lemma_same_value_counts(a, b, x);
        lemma_same_products(a, b, x + 1);
        assert(cell_coord(a, x, k) == cell_coord(b, x, k));
        assert(cell_value(a, x, k) == cell_value(b, x, k));
        assert(axis_name(a, x) == axis_name(b, x));
    }
}

proof fn lemma_same_axes_error(a: Seq<(String, Vec<String>)>, b: Seq<(String, Vec<String>)>, k: int)
    requires
        same_axes_up_to_value_order(a, b),
        0 <= k <= a.len(),
    ensures
        axes_error(a, k) == axes_error(b, k),
    decreases k,
{
    if k > 0 {
        lemma_same_axes_error(a, b, k - 1);
        let x = k - 1;
        lemma_same_value_counts(a, b, x);
        lemma_same_products(a, b, x + 1);
        assert(axis_name(a, x) == axis_name(b, x));
        assert(axis_error(a, x) == axis_error(b, x));
    }
}

/// Compiling a matrix ignores the order in which each axis lists its
/// values: the same error, or the same cells, keys and coordinates.
pub proof fn law_matrix_ignores_value_order(
    prefix: Seq<char>,
    a: Seq<(String, Vec<String>)>,
    b: Seq<(String, Vec<String>)>,
)
    requires
        same_axes_up_to_value_order(a, b),
    ensures
        matrix_error(prefix, a) == matrix_error(prefix, b),
        matrix_holds(prefix, a) == matrix_holds(prefix, b),
        suffix_prod(a, 0) == suffix_prod(b, 0),
        forall|k: int| #[trigger] cell_key(prefix, a, k) == cell_key(prefix, b, k),
        forall|k: int, x: int| 0 <= x < a.len() ==> #[trigger] cell_value(a, x, k) == cell_value(b, x, k),
{
    lemma_same_products(a, b, 0);
    lemma_same_products(a, b, a.len() as int);
    lemma_same_axes_error(a, b, a.len() as int);
    assert forall|k: int| #[trigger] cell_key(prefix, a, k) == cell_key(prefix, b, k) by {
        lemma_same_dims(a, b, k, a.len() as int);
    }
    assert forall|k: int, x: int| 0 <= x < a.len() implies #[trigger] cell_value(a, x, k) == cell_value(b, x, k) by {
        lemma_same_dims(a, b, k, a.len() as int);
    }
    if exists|k: int| 0 <= k < suffix_prod(a, 0) && !node_key_ok(#[trigger] cell_key(prefix, a, k)) {
        let k = choose|k: int| 0 <= k < suffix_prod(a, 0) && !node_key_ok(#[trigger] cell_key(prefix, a, k));
        assert(!node_key_ok(cell_key(prefix, b, k)));
    }
    if exists|k: int| 0 <= k < suffix_prod(b, 0) && !node_key_ok(#[trigger] cell_key(prefix, b, k)) {
        let k = choose|k: int| 0 <= k < suffix_prod(b, 0) && !node_key_ok(#[trigger] cell_key(prefix, b, k));
        assert(!node_key_ok(cell_key(prefix, a, k)));
    }
    if matrix_axes_valid(prefix, a) {
        assert forall|x: int| 0 <= x < b.len() implies dag_text_ok(#[trigger] axis_name(b, x)) by {
            assert(axis_name(a, x) == axis_name(b, x));
        }
        assert forall|x: int| 0 <= x < b.len() implies 1 <= (#[trigger] b[x]).1@.len() <= 32 by {
            lemma_same_value_counts(a, b, x);
        }
        assert forall|x: int, i: int| 0 <= x < b.len() && 0 <= i < b[x].1@.len() implies dag_text_ok(
            #[trigger] axis_values(b, x)[i],
        ) by {
            lemma_same_value_counts(a, b, x);
        }
        assert forall|x: int| 0 <= x < b.len() implies (#[trigger] axis_values(b, x)).no_duplicates() by {
            lemma_same_value_counts(a, b, x);
        }
        assert(matrix_axes_valid(prefix, b));
    }
    if matrix_axes_valid(prefix, b) {
        assert forall|x: int| 0 <= x < a.len() implies dag_text_ok(#[trigger] axis_name(a, x)) by {
            assert(axis_name(a, x) == axis_name(b, x));
        }
        assert forall|x: int| 0 <= x < a.len() implies 1 <= (#[trigger] a[x]).1@.len() <= 32 by {
            lemma_same_value_counts(a, b, x);
        }
        assert forall|x: int, i: int| 0 <= x < a.len() && 0 <= i < a[x].1@.len() implies dag_text_ok(
            #[trigger] axis_values(a, x)[i],
        ) by {
            lemma_same_value_counts(a, b, x);
        }
        assert forall|x: int| 0 <= x < a.len() implies (#[trigger] axis_values(a, x)).no_duplicates() by {
            lemma_same_value_counts(a, b, x);
        }
        assert(matrix_axes_valid(prefix, a));
    }
}

/// Compiles sorted axes of unique values into their bounded, stable
/// Cartesian product. `axes` lists the axes in increasing name order, as a
/// map keyed by axis name yields them.
pub fn compile_matrix(node_prefix: &str, axes: &Vec<(String, Vec<String>)>) -> (r: Result<
    Vec<MatrixCell>,
    DagContractError,
>)
    requires
        forall|a: int, b: int|
            0 <= a < b < axes@.len() ==> text_lt(#[trigger] axes@[a].0@, #[trigger] axes@[b].0@),
    ensures
        r is Ok <==> matrix_holds(node_prefix@, axes@),
        r is Ok <==> matrix_error(node_prefix@, axes@) is None,
        r matches Err(e) ==> matrix_code_violated(node_prefix@, axes@, e.code),
        r matches Err(e) ==> matrix_error(node_prefix@, axes@) == Some(error_view(e)),
        r matches Ok(cells) ==> {
            &&& cells@.len() == suffix_prod(axes@, 0)
            &&& forall|k: int|
                0 <= k < cells@.len() ==> (#[trigger] cells@[k]).node_key@ == cell_key(
                    node_prefix@,
                    axes@,
                    k,
                ) && cells@[k].values@.len() == axes@.len()
            &&& forall|k: int, a: int|
                0 <= k < cells@.len() && 0 <= a < axes@.len() ==> (#[trigger] cells@[k].values@[a]).0@
                    == axis_name(axes@, a) && cells@[k].values@[a].1@ == cell_value(axes@, a, k)
        },
{
    let ghost ax = axes@;
    if let Err(e) = validate_text("$.node_prefix", node_prefix) {
        return Err(e);
    }
    let na = axes.len();
    if na == 0 || na > MAX_MATRIX_AXES {
        return Err(
            DagContractError::new(
                DagContractErrorCode::MatrixAxisLimit,
                "$.axes".to_owned(),
                "matrix axis count must be between 1 and 8",
            ),
        );
    }
    let mut sorted: Vec<Vec<String>> = Vec::new();
    let mut cells: usize = 1;
    let mut a: usize = 0;
    while a < na
        invariant
            na == ax.len(),
            ax == axes@,
            1 <= na <= 8,
            dag_text_ok(node_prefix@),
            a <= na,
            sorted@.len() == a,
            forall|b: int| 0 <= b < a ==> views((#[trigger] sorted@[b])@) == sorted_text(axis_values(ax, b)),
            forall|b: int| 0 <= b < a ==> (#[trigger] sorted@[b])@.len() == ax[b].1@.len(),
            forall|b: int| 0 <= b < a ==> dag_text_ok(#[trigger] axis_name(ax, b)),
            forall|b: int| 0 <= b < a ==> 1 <= (#[trigger] ax[b]).1@.len() <= 32,
            forall|b: int, i: int|
                0 <= b < a && 0 <= i < ax[b].1@.len() ==> dag_text_ok(#[trigger] axis_values(ax, b)[i]),
            forall|b: int| 0 <= b < a ==> (#[trigger] axis_values(ax, b)).no_duplicates(),
            forall|k: int| 0 <= k <= a ==> #[trigger] prefix_prod(ax, k) <= 256,
            cells == prefix_prod(ax, a as int),
            axes_error(ax, a as int) is None,
        decreases na - a,
    {
        let axis = axes[a].0.as_str();
        if !check_text_bytes(axis, false) {
            proof {
                assert(!dag_text_ok(axis_name(ax, a as int)));
                lemma_axis_fails(node_prefix@, ax, a as int, axis_error(ax, a as int)->0);
            }
            return Err(invalid_text(axis_path(axis), false));
        }
        let values = &axes[a].1;
        if values.len() == 0 || values.len() > MAX_MATRIX_VALUES_PER_AXIS {
            proof {
                lemma_axis_fails(node_prefix@, ax, a as int, axis_error(ax, a as int)->0);
            }
            return Err(
                DagContractError::new(
                    DagContractErrorCode::MatrixValueLimit,
                    axis_path(axis),
                    "matrix values per axis must be between 1 and 32",
                ),
            );
        }
        let mut i: usize = 0;
        while i < values.len()
            invariant
                *values == ax[a as int].1,
                a < na,
                na == ax.len(),
                ax == axes@,
                i <= values@.len(),
                forall|x: int| 0 <= x < i ==> dag_text_ok(#[trigger] axis_values(ax, a as int)[x]),
                dag_text_ok(node_prefix@),
                1 <= na <= 8,
                axes_error(ax, a as int) is None,
                dag_text_ok(axis_name(ax, a as int)),
                1 <= values@.len() <= 32,
                axis@ == axis_name(ax, a as int),
            decreases values@.len() - i,
        {
            if !check_text_bytes(values[i].as_str(), false) {
                proof {
                    assert(!dag_text_ok(axis_values(ax, a as int)[i as int]));
                    lemma_axis_fails(node_prefix@, ax, a as int, axis_error(ax, a as int)->0);
                }
                return Err(invalid_text(axis_path(axis), false));
            }
            i = i + 1;
        }
        let s = sort_strings(values);
        proof {
            lemma_sorted_is_sorted_text(views(s@), axis_values(ax, a as int));
            vstd::seq_lib::to_multiset_len(views(s@));
            vstd::seq_lib::to_multiset_len(views(values@));
        }
        let mut x: usize = 0;
        while x < s.len()
            invariant
                x <= s@.len(),
                a < na,
                na == ax.len(),
                ax == axes@,
                views(s@).to_multiset() == axis_values(ax, a as int).to_multiset(),
                forall|p: int, q: int| 0 <= p < q < s@.len() && p < x ==> #[trigger] s@[p]@ != #[trigger] s@[q]@,
                dag_text_ok(node_prefix@),
                1 <= na <= 8,
                axes_error(ax, a as int) is None,
                dag_text_ok(axis_name(ax, a as int)),
                1 <= ax[a as int].1@.len() <= 32,
                forall|z: int| 0 <= z < ax[a as int].1@.len() ==> dag_text_ok(#[trigger] axis_values(ax, a as int)[z]),
                axis@ == axis_name(ax, a as int),
            decreases s@.len() - x,
        {
            let mut y: usize = x + 1;
            while y < s.len()
                invariant
                    x < s@.len(),
                    a < na,
                    na == ax.len(),
                    ax == axes@,
                    views(s@).to_multiset() == axis_values(ax, a as int).to_multiset(),
                    x + 1 <= y <= s@.len(),
                    forall|p: int, q: int| 0 <= p < q < s@.len() && p < x ==> #[trigger] s@[p]@ != #[trigger] s@[q]@,
                    forall|q: int| x < q < y ==> s@[x as int]@ != #[trigger] s@[q]@,
                    dag_text_ok(node_prefix@),
                    1 <= na <= 8,
                    axes_error(ax, a as int) is None,
                    dag_text_ok(axis_name(ax, a as int)),
                    1 <= ax[a as int].1@.len() <= 32,
                    forall|z: int| 0 <= z < ax[a as int].1@.len() ==> dag_text_ok(#[trigger] axis_values(ax, a as int)[z]),
                    axis@ == axis_name(ax, a as int),
                decreases s@.len() - y,
            {
                if str_eq(s[x].as_str(), s[y].as_str()) {
                    proof {
                        let vs = views(s@);
                        assert(vs[x as int] == vs[y as int]);
                        assert(!vs.no_duplicates());
                        if axis_values(ax, a as int).no_duplicates() {
                            axis_values(ax, a as int).lemma_multiset_has_no_duplicates();
                            vs.lemma_multiset_has_no_duplicates_conv();
                        }
                        assert(!axis_values(ax, a as int).no_duplicates());
                        lemma_axis_fails(node_prefix@, ax, a as int, axis_error(ax, a as int)->0);
                    }
                    return Err(
                        DagContractError::new(
                            DagContractErrorCode::DuplicateMatrixValue,
                            axis_path(axis),
                            "matrix values must be unique",
                        ),
                    );
                }
                y = y + 1;
            }
            x = x + 1;
        }
        proof {
            let vs = views(s@);
            assert(vs.no_duplicates());
            vs.lemma_multiset_has_no_duplicates();
            axis_values(ax, a as int).lemma_multiset_has_no_duplicates_conv();
        }
        assert(prefix_prod(ax, a as int) <= 256);
        let len = values.len();
        assert(cells * len <= 8192) by (nonlinear_arith)
            requires
                cells <= 256,
                len <= 32,
        ;
        cells = cells * len;
        if cells > MAX_MATRIX_CELLS {
            proof {
                assert(prefix_prod(ax, a + 1) > 256);
                if forall|b: int| 0 <= b < ax.len() ==> 1 <= (#[trigger] ax[b]).1@.len() {
                    lemma_prefix_monotone(ax, a + 1, ax.len() as int);
                }
                lemma_axis_fails(node_prefix@, ax, a as int, axis_error(ax, a as int)->0);
            }
            return Err(
                DagContractError::new(
                    DagContractErrorCode::MatrixCellLimit,
                    "$.axes".to_owned(),
                    "matrix product exceeds 256 cells",
                ),
            );
        }
        sorted.push(s);
        a = a + 1;
    }
    proof {
        assert(matrix_axes_valid(node_prefix@, ax));
    }
    // rev[i] = suffix_prod(ax, na - i)
    let mut rev: Vec<usize> = Vec::new();
    rev.push(1);
    let mut i: usize = 0;
    while i < na
        invariant
            na == ax.len(),
            ax == axes@,
            matrix_axes_valid(node_prefix@, ax),
            axes_error(ax, na as int) is None,
            i <= na,
            rev@.len() == i + 1,
            forall|x: int| 0 <= x <= i ==> #[trigger] rev@[x] == suffix_prod(ax, na - x),
        decreases na - i,
    {
        proof {
            lemma_suffix_bounded(ax, (na - i - 1) as int);
            lemma_prefix_suffix(ax, ax.len() as int);
        }
        let next = axes[na - i - 1].1.len() * rev[i];
        rev.push(next);
        i = i + 1;
    }
    let total = rev[na];
    let mut out: Vec<MatrixCell> = Vec::new();
    let mut k: usize = 0;
    while k < total
        invariant
            na == ax.len(),
            ax == axes@,
            matrix_axes_valid(node_prefix@, ax),
            axes_error(ax, na as int) is None,
            rev@.len() == na + 1,
            forall|x: int| 0 <= x <= na ==> #[trigger] rev@[x] == suffix_prod(ax, na - x),
            total == suffix_prod(ax, 0),
            sorted@.len() == na,
            forall|b: int| 0 <= b < na ==> views((#[trigger] sorted@[b])@) == sorted_text(axis_values(ax, b)),
            forall|b: int| 0 <= b < na ==> (#[trigger] sorted@[b])@.len() == ax[b].1@.len(),
            k <= total,
            out@.len() == k,
            forall|c: int| 0 <= c < k ==> node_key_ok(#[trigger] cell_key(node_prefix@, ax, c)),
            forall|c: int|
                0 <= c < k ==> (#[trigger] out@[c]).node_key@ == cell_key(node_prefix@, ax, c)
                    && out@[c].values@.len() == na,
            forall|c: int, b: int|
                0 <= c < k && 0 <= b < na ==> (#[trigger] out@[c].values@[b]).0@ == axis_name(ax, b)
                    && out@[c].values@[b].1@ == cell_value(ax, b, c),
        decreases total - k,
    {
        let mut values: Vec<(String, String)> = Vec::new();
        let mut dims = String::new();
        let mut b: usize = 0;
        while b < na
            invariant
                na == ax.len(),
                ax == axes@,
                matrix_axes_valid(node_prefix@, ax),
                rev@.len() == na + 1,
                forall|x: int| 0 <= x <= na ==> #[trigger] rev@[x] == suffix_prod(ax, na - x),
                sorted@.len() == na,
                forall|x: int| 0 <= x < na ==> views((#[trigger] sorted@[x])@) == sorted_text(axis_values(ax, x)),
                forall|x: int| 0 <= x < na ==> (#[trigger] sorted@[x])@.len() == ax[x].1@.len(),
                b <= na,
                k < total,
                total == suffix_prod(ax, 0),
                values@.len() == b,
                dims@ == cell_dims(ax, k as int, b as int),
                forall|x: int|
                    0 <= x < b ==> (#[trigger] values@[x]).0@ == axis_name(ax, x) && values@[x].1@
                        == cell_value(ax, x, k as int),
            decreases na - b,
        {
            proof {
                lemma_products_positive(ax, (b + 1) as int);
            }
            let divisor = rev[na - (b + 1)];
            let len = axes[b].1.len();
            let coord = (k / divisor) % len;
            let name = axes[b].0.clone();
            let value = sorted[b][coord].clone();
            proof {
                assert(coord as int == cell_coord(ax, b as int, k as int));
                assert(views(sorted@[b as int]@)[coord as int] == sorted@[b as int]@[coord as int]@);
            }
            let head = if b > 0 {
                concat_str(dims.as_str(), ",")
            } else {
                dims.clone()
            };
            let with_name = concat_str(head.as_str(), name.as_str());
            let with_eq = concat_str(with_name.as_str(), "=");
            dims = concat_str(with_eq.as_str(), value.as_str());
            proof {
                if b == 0 {
                    assert(head@ == Seq::<char>::empty());
                    assert(dims@ =~= cell_dims(ax, k as int, 1));
                } else {
                    assert(dims@ =~= cell_dims(ax, k as int, (b + 1) as int));
                }
            }
            values.push((name, value));
            b = b + 1;
        }
        let open = concat_str(node_prefix, "[");
        let inner = concat_str(open.as_str(), dims.as_str());
        let key = concat_str(inner.as_str(), "]");
        proof {
            assert(key@ =~= cell_key(node_prefix@, ax, k as int));
        }
        if !check_text_bytes(key.as_str(), true) {
            proof {
                assert(!node_key_ok(cell_key(node_prefix@, ax, k as int)));
            }
            return Err(invalid_text("$.node_key".to_owned(), true));
        }
        out.push(MatrixCell { node_key: key, values });
        k = k + 1;
    }
    Ok(out)
}

/// The capabilities an agent must offer to run a node: the node's own and
/// its platform's, each once, in increasing order.
pub fn effective_capabilities(node: &NewDagNode) -> (r: Vec<String>)
    ensures
        forall|p: int, q: int| 0 <= p < q < r@.len() ==> text_lt(#[trigger] r@[p]@, #[trigger] r@[q]@),
        forall|k: Seq<char>|
            #[trigger] views(r@).contains(k) <==> (views(node.required_capabilities@).contains(k) || k
                == "platform:"@ + node.required_platform@),
{
    let mut all: Vec<String> = Vec::new();
    let mut i: usize = 0;
    while i < node.required_capabilities.len()
        invariant
            i <= node.required_capabilities@.len(),
            all@.len() == i,
            forall|j: int| 0 <= j < i ==> (#[trigger] all@[j])@ == node.required_capabilities@[j]@,
        decreases node.required_capabilities@.len() - i,
    {
        let c = node.required_capabilities[i].clone();
        all.push(c);
        i = i + 1;
    }
    assert(views(all@) =~= views(node.required_capabilities@));
    let ghost own = views(all@);
    all.push(concat_str("platform:", node.required_platform.as_str()));
    proof {
        assert(views(all@) =~= own.push("platform:"@ + node.required_platform@));
        assert forall|k: Seq<char>| #[trigger] views(all@).contains(k) <==> (own.contains(k) || k
            == "platform:"@ + node.required_platform@) by {
            if views(all@).contains(k) {
                let x = choose|x: int| 0 <= x < views(all@).len() && views(all@)[x] == k;
                if x < own.len() {
                    assert(own[x] == k);
                }
            }
            if own.contains(k) {
                let x = choose|x: int| 0 <= x < own.len() && own[x] == k;
                assert(views(all@)[x] == k);
            }
            if k == "platform:"@ + node.required_platform@ {
                assert(views(all@)[own.len() as int] == k);
            }
        }
    }
    sorted_unique_strings(&all)
}

/// The status a node is admitted in: queued without dependencies, else
/// blocked until they are met.
pub fn admitted_node_status(node: &NewDagNode) -> (s: &'static str)
    ensures
        node.dependencies@.len() == 0 ==> s@ == "queued"@,
        node.dependencies@.len() > 0 ==> s@ == "blocked"@,
{
    if node.dependencies.len() == 0 {
        "queued"
    } else {
        "blocked"
    }
}

/// An idempotent re-admission finds a stored build: it must be a DAG build
/// with the same pipeline digest and the same normalized contract.
pub fn check_existing_dag(dag_mode: bool, digest_matches: bool, contract_matches: bool) -> (r: Result<(), StoreError>)
    ensures
        r is Ok <==> (dag_mode && digest_matches && contract_matches),
        r matches Err(e) ==> e matches StoreError::InvalidDag(m) && m@
            == "idempotency key already belongs to a different build contract"@,
{
    if !dag_mode || !digest_matches || !contract_matches {
        return Err(
            StoreError::InvalidDag("idempotency key already belongs to a different build contract".to_owned()),
        );
    }
    Ok(())
}

/// An idempotent re-admission must find exactly the admitted node keys.
pub fn check_existing_dag_nodes(stored_keys: &Vec<String>, input: &NewDagBuild) -> (r: Result<(), StoreError>)
    ensures
        r is Ok <==> (views(stored_keys@).to_set().len() == input.nodes@.len() && forall|i: int|
            0 <= i < input.nodes@.len() ==> views(stored_keys@).contains(#[trigger] input.nodes@[i].node_key@)),
        r matches Err(e) ==> e matches StoreError::InvalidDag(m) && m@
            == "idempotent DAG exists with a different node contract"@,
{
    let distinct = sorted_unique_strings(stored_keys);
    proof {
        let d = views(distinct@);
        let st = views(stored_keys@);
        assert(d.to_set() =~= st.to_set()) by {
            assert forall|k: Seq<char>| d.to_set().contains(k) <==> st.to_set().contains(k) by {
                assert(d.contains(k) <==> st.contains(k));
            }
        }
        assert(d.no_duplicates()) by {
            assert forall|p: int, q: int| 0 <= p < d.len() && 0 <= q < d.len() && p != q implies d[p] != d[q] by {
                if p < q {
                    assert(text_lt(distinct@[p]@, distinct@[q]@));
                    crate::order::lemma_text_lt_irreflexive(d[p]);
                } else {
                    assert(text_lt(distinct@[q]@, distinct@[p]@));
                    crate::order::lemma_text_lt_irreflexive(d[q]);
                }
            }
        }
        d.unique_seq_to_set();
    }
    if distinct.len() != input.nodes.len() {
        return Err(StoreError::InvalidDag("idempotent DAG exists with a different node contract".to_owned()));
    }
    let mut i: usize = 0;
    while i < input.nodes.len()
        invariant
            i <= input.nodes@.len(),
            forall|j: int| 0 <= j < i ==> views(stored_keys@).contains(#[trigger] input.nodes@[j].node_key@),
            forall|k: Seq<char>| #[trigger] views(distinct@).contains(k) <==> views(stored_keys@).contains(k),
        decreases input.nodes@.len() - i,
    {
        let key = input.nodes[i].node_key.as_str();
        let mut found = false;
        let mut j: usize = 0;
        while j < distinct.len()
            invariant
                j <= distinct@.len(),
                found ==> views(distinct@).contains(key@),
                !found ==> forall|x: int| 0 <= x < j ==> distinct@[x]@ != key@,
            decreases distinct@.len() - j,
        {
            if str_eq(distinct[j].as_str(), key) {
                found = true;
                proof {
                    assert(views(distinct@)[j as int] == key@);
                }
            }
            j = j + 1;
        }
        if !found {
            proof {
                assert forall|x: int| 0 <= x < views(distinct@).len() implies views(distinct@)[x] != key@ by {
                    assert(distinct@[x]@ != key@);
                }
                assert(!views(distinct@).contains(key@));
                assert(!views(stored_keys@).contains(input.nodes@[i as int].node_key@));
            }
            return Err(StoreError::InvalidDag("idempotent DAG exists with a different node contract".to_owned()));
        }
        i = i + 1;
    }
    Ok(())
}

/// The sort keys of a build's nodes: each node's key.
pub open spec fn node_sort_keys(input: NewDagBuild) -> Seq<(Seq<char>, Seq<char>)> {
    Seq::new(input.nodes@.len(), |i: int| (input.nodes@[i].node_key@, Seq::<char>::empty()))
}

/// The sort keys of a node's dependencies: the parent's key, then the
/// condition's name.
pub open spec fn dependency_sort_keys(node: NewDagNode) -> Seq<(Seq<char>, Seq<char>)> {
    Seq::new(
        node.dependencies@.len(),
        |i: int| (node.dependencies@[i].node_key@, node.dependencies@[i].condition.name()),
    )
}

/// The order in which the normalized contract lists the build's nodes: by
/// node key, equal keys in their written order.
pub fn normalized_node_order(input: &NewDagBuild) -> (r: Vec<usize>)
    ensures
        stably_ordered(node_sort_keys(*input), r@),
{
    let mut keys: Vec<(Vec<char>, Vec<char>)> = Vec::new();
    let mut i: usize = 0;
    while i < input.nodes.len()
        invariant
            i <= input.nodes@.len(),
            keys@.len() == i,
            forall|j: int| 0 <= j < i ==> key_views(keys@)[j] == #[trigger] node_sort_keys(*input)[j],
        decreases input.nodes@.len() - i,
    {
        keys.push((chars_of(input.nodes[i].node_key.as_str()), Vec::new()));
        proof {
            assert(key_views(keys@)[i as int] == node_sort_keys(*input)[i as int]);
        }
        i = i + 1;
    }
    assert(key_views(keys@) =~= node_sort_keys(*input));
    stable_key_order(&keys)
}

/// The order in which the normalized contract lists a node's dependencies:
/// by parent key, then by condition name, equal pairs in their written order.
pub fn normalized_dependency_order(node: &NewDagNode) -> (r: Vec<usize>)
    ensures
        stably_ordered(dependency_sort_keys(*node), r@),
{
    let mut keys: Vec<(Vec<char>, Vec<char>)> = Vec::new();
    let mut i: usize = 0;
    while i < node.dependencies.len()
        invariant
            i <= node.dependencies@.len(),
            keys@.len() == i,
            forall|j: int| 0 <= j < i ==> key_views(keys@)[j] == #[trigger] dependency_sort_keys(*node)[j],
        decreases node.dependencies@.len() - i,
    {
        let d = &node.dependencies[i];
        keys.push((chars_of(d.node_key.as_str()), chars_of(d.condition.as_str())));
        proof {
            assert(key_views(keys@)[i as int] == dependency_sort_keys(*node)[i as int]);
        }
        i = i + 1;
    }
    assert(key_views(keys@) =~= dependency_sort_keys(*node));
    stable_key_order(&keys)
}

} // verus!
