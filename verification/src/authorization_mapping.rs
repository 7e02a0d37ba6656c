//! Imported Jenkins authorization policy: how a Jenkins ACL entry maps onto
//! per-project McLoving action decisions, the checks that keep a mapping
//! from granting more than the source ACL did, and the policy digests.
use vstd::prelude::*;
use vstd::utf8::encode_utf8;

use crate::authz::{Action, GrantDecision};
use crate::migration::{opt_text_bytes, push_framed_opt_str};
use crate::encoding::{
    digest_eq, framed, i64_be, id_bytes, push_framed, push_framed_i64, push_framed_id, push_framed_str, sha256,
    sha256_spec,
};
use crate::text::{
    byte_len, chars_of, concat_str, is_padded, is_whitespace, is_whitespace_char, padded, push_char, str_eq,
    utf8_len,
};
use crate::StoreError;

verus! {

/// Whether the bytes parse as JSON whose top-level value is an array.
pub uninterp spec fn json_is_array(json: Seq<u8>) -> bool;

/// Parses the bytes with `serde_json::from_slice` into a
/// `serde_json::Value` and reports whether it is an array; bytes that do not
/// parse are not an array. What parses is left to the name.
#[verifier::external_body]
fn json_array(json: &[u8]) -> (r: bool)
    ensures
        r == json_is_array(json@),
{
    match serde_json::from_slice::<serde_json::Value>(json) {
        Ok(value) => value.is_array(),
        Err(_) => false,
    }
}

/// One Jenkins principal's ACL entry and the McLoving decisions it maps to.
///
/// `source_alias_history` is the compact JSON encoding of the source's alias
/// history. `source_permissions` lists distinct permission names in strictly
/// increasing order, and `decisions` lists at most one decision per action
/// in action order; these are the orders in which both are encoded.
#[derive(Clone, Debug, PartialEq, Eq)]
pub struct AuthorizationPrincipalMappingWrite {
    pub mapping_id: u128,
    pub target_identity_id: u128,
    pub source_identity_id: String,
    pub source_alias_history: Vec<u8>,
    pub source_membership_generation: i64,
    pub source_lifecycle_state: String,
    pub source_acl_entry_id: String,
    pub source_acl_scope: String,
    pub source_acl_generation: String,
    pub source_permissions: Vec<String>,
    pub target_provider_id: Option<u128>,
    pub target_external_subject: Option<String>,
    pub target_lifecycle_generation: i64,
    pub target_group_generation: i64,
    pub target_provenance_digest: [u8; 32],
    pub resulting_role: String,
    pub decisions: Vec<(Action, GrantDecision)>,
}

/// One complete authorization generation for a project.
#[derive(Clone, Debug, PartialEq, Eq)]
pub struct AuthorizationPolicyWrite {
    pub organization_id: u128,
    pub project_id: u128,
    pub generation: i64,
    pub expected_current_generation: Option<i64>,
    pub source_realm_implementation: String,
    pub source_realm_digest: [u8; 32],
    pub source_inventory_digest: [u8; 32],
    pub reviewer: String,
    pub actor_subject: String,
    pub restored_from_generation: Option<i64>,
    pub mappings: Vec<AuthorizationPrincipalMappingWrite>,
    pub expected_policy_digest: [u8; 32],
}

/// What an installed authorization generation answers.
#[derive(Clone, Debug, PartialEq, Eq)]
pub struct AuthorizationPolicyReceipt {
    pub organization_id: u128,
    pub project_id: u128,
    pub generation: i64,
    pub policy_digest: [u8; 32],
    pub mapping_count: usize,
    pub grant_count: usize,
}

/// Number of leading whitespace characters.
pub open spec fn leading_whitespace(s: Seq<char>) -> nat
    decreases s.len(),
{
    if s.len() > 0 && is_whitespace_char(s[0]) {
        1 + leading_whitespace(s.drop_first())
    } else {
        0
    }
}

/// Number of trailing whitespace characters.
pub open spec fn trailing_whitespace(s: Seq<char>) -> nat
    decreases s.len(),
{
    if s.len() > 0 && is_whitespace_char(s.last()) {
        1 + trailing_whitespace(s.drop_last())
    } else {
        0
    }
}

/// The text without its leading and trailing whitespace.
pub open spec fn trimmed(s: Seq<char>) -> Seq<char> {
    let t = s.skip(leading_whitespace(s) as int);
    t.take(t.len() - trailing_whitespace(t))
}

/// ASCII upper case to lower case, and `/` to `.`.
pub open spec fn normalized_char(c: char) -> char {
    if 'A' <= c && c <= 'Z' {
        ((c as u32) + 32) as char
    } else if c == '/' {
        '.'
    } else {
        c
    }
}

/// A Jenkins permission name in the form the mapping compares.
pub open spec fn normalized(s: Seq<char>) -> Seq<char> {
    trimmed(s).map_values(|c: char| normalized_char(c))
}

proof fn lemma_leading_whitespace(s: Seq<char>)
    ensures
        leading_whitespace(s) <= s.len(),
        forall|i: int| 0 <= i < leading_whitespace(s) ==> is_whitespace_char(#[trigger] s[i]),
        leading_whitespace(s) < s.len() ==> !is_whitespace_char(s[leading_whitespace(s) as int]),
    decreases s.len(),
{
    if s.len() > 0 && is_whitespace_char(s[0]) {
        lemma_leading_whitespace(s.drop_first());
        assert forall|i: int| 0 <= i < leading_whitespace(s) implies is_whitespace_char(#[trigger] s[i]) by {
            if i > 0 {
                assert(s[i] == s.drop_first()[i - 1]);
            }
        }
    }
}

proof fn lemma_trailing_whitespace(s: Seq<char>)
    ensures
        trailing_whitespace(s) <= s.len(),
        forall|i: int| s.len() - trailing_whitespace(s) <= i < s.len() ==> is_whitespace_char(#[trigger] s[i]),
        trailing_whitespace(s) < s.len() ==> !is_whitespace_char(s[s.len() - 1 - trailing_whitespace(s)]),
    decreases s.len(),
{
    if s.len() > 0 && is_whitespace_char(s.last()) {
        let t = s.drop_last();
        lemma_trailing_whitespace(t);
        assert forall|i: int| s.len() - trailing_whitespace(s) <= i < s.len() implies is_whitespace_char(
            #[trigger] s[i],
        ) by {
            if i < s.len() - 1 {
                assert(s[i] == t[i]);
            }
        }
        if trailing_whitespace(s) < s.len() {
            assert(s[s.len() - 1 - trailing_whitespace(s)] == t[t.len() - 1 - trailing_whitespace(t)]);
        }
    }
}

/// Index of the first character that is not whitespace, or the length.
fn first_non_whitespace(cs: &Vec<char>) -> (i: usize)
    ensures
        i == leading_whitespace(cs@),
        i <= cs@.len(),
{
    proof {
        lemma_leading_whitespace(cs@);
    }
    let mut i: usize = 0;
    while i < cs.len() && is_whitespace(cs[i])
        invariant
            i <= cs@.len(),
            i <= leading_whitespace(cs@),
            leading_whitespace(cs@) <= cs@.len(),
            forall|j: int| 0 <= j < leading_whitespace(cs@) ==> is_whitespace_char(#[trigger] cs@[j]),
            leading_whitespace(cs@) < cs@.len() ==> !is_whitespace_char(cs@[leading_whitespace(cs@) as int]),
        decreases cs@.len() - i,
    {
        i = i + 1;
    }
    i
}

/// A permission name trimmed, with ASCII letters lowered and `/` as `.`.
pub fn normalized_permission(permission: &str) -> (r: String)
    ensures
        r@ == normalized(permission@),
{
    let cs = chars_of(permission);
    let start = first_non_whitespace(&cs);
    let ghost t = cs@.skip(start as int);
    proof {
        lemma_trailing_whitespace(t);
    }
    let mut end: usize = cs.len();
    while end > start && is_whitespace(cs[end - 1])
        invariant
            start <= end <= cs@.len(),
            t == cs@.skip(start as int),
            trailing_whitespace(t) <= t.len(),
            end - start >= t.len() - trailing_whitespace(t),
            forall|i: int| t.len() - trailing_whitespace(t) <= i < t.len() ==> is_whitespace_char(#[trigger] t[i]),
            trailing_whitespace(t) < t.len() ==> !is_whitespace_char(t[t.len() - 1 - trailing_whitespace(t)]),
        decreases end,
    {
        assert(t[end - 1 - start] == cs@[end - 1]);
        end = end - 1;
    }
    assert(end - start == t.len() - trailing_whitespace(t)) by {
        if end - start > t.len() - trailing_whitespace(t) {
            assert(t[end - 1 - start] == cs@[end - 1]);
        }
    }
    let ghost body = trimmed(cs@);
    assert(body =~= cs@.subrange(start as int, end as int));
    let mut out = String::new();
    let mut i: usize = start;
    while i < end
        invariant
            start <= i <= end,
            end <= cs@.len(),
            body == cs@.subrange(start as int, end as int),
            out@ == body.take(i - start).map_values(|c: char| normalized_char(c)),
        decreases end - i,
    {
        let c = cs[i];
        let n = if 'A' <= c && c <= 'Z' {
            let lower = ((c as u32) + 32) as u8;
            lower as char
        } else if c == '/' {
            '.'
        } else {
            c
        };
        assert(n == normalized_char(c)) by {
            if 'A' <= c && c <= 'Z' {
                assert(((c as u32) + 32) < 256);
            }
        }
        push_char(&mut out, n);
        proof {
            assert(body.take(i + 1 - start) =~= body.take(i - start).push(c));
            assert(body.take(i + 1 - start).map_values(|c: char| normalized_char(c)) =~= body.take(i - start).map_values(
                |c: char| normalized_char(c),
            ).push(normalized_char(c)));
        }
        i = i + 1;
    }
    assert(body.take(end - start) =~= body);
    assert(cs@ == permission@);
    out
}

/// The McLoving action a normalized Jenkins permission corresponds to.
pub open spec fn permission_action(n: Seq<char>) -> Option<Action> {
    if n == "job.read"@ || n == "item.read"@ {
        Some(Action::ProjectView)
    } else if n == "job.build"@ || n == "item.build"@ {
        Some(Action::BuildTrigger)
    } else if n == "job.cancel"@ || n == "run.cancel"@ {
        Some(Action::BuildCancel)
    } else if n == "job.configure"@ || n == "item.configure"@ {
        Some(Action::ProjectConfigure)
    } else if n == "job.approve"@ || n == "input.approve"@ {
        Some(Action::ApprovalAct)
    } else if n == "job.retry"@ || n == "run.replay"@ || n == "run.retry"@ {
        Some(Action::BuildRetry)
    } else if n == "artifact.read"@ || n == "run.artifacts"@ {
        Some(Action::ArtifactRead)
    } else if n == "artifact.write"@ {
        Some(Action::ArtifactWrite)
    } else if n == "test.read"@ || n == "run.tests"@ {
        Some(Action::TestRead)
    } else if n == "log.read"@ || n == "run.logs"@ {
        Some(Action::LogRead)
    } else if n == "credential.use"@ || n == "credentials.use"@ {
        Some(Action::SecretUse)
    } else if n == "audit.read"@ {
        Some(Action::AuditRead)
    } else {
        None
    }
}

fn permission_action_of(n: &str) -> (r: Option<Action>)
    ensures
        r == permission_action(n@),
{
    if str_eq(n, "job.read") || str_eq(n, "item.read") {
        Some(Action::ProjectView)
    } else if str_eq(n, "job.build") || str_eq(n, "item.build") {
        Some(Action::BuildTrigger)
    } else if str_eq(n, "job.cancel") || str_eq(n, "run.cancel") {
        Some(Action::BuildCancel)
    } else if str_eq(n, "job.configure") || str_eq(n, "item.configure") {
        Some(Action::ProjectConfigure)
    } else if str_eq(n, "job.approve") || str_eq(n, "input.approve") {
        Some(Action::ApprovalAct)
    } else if str_eq(n, "job.retry") || str_eq(n, "run.replay") || str_eq(n, "run.retry") {
        Some(Action::BuildRetry)
    } else if str_eq(n, "artifact.read") || str_eq(n, "run.artifacts") {
        Some(Action::ArtifactRead)
    } else if str_eq(n, "artifact.write") {
        Some(Action::ArtifactWrite)
    } else if str_eq(n, "test.read") || str_eq(n, "run.tests") {
        Some(Action::TestRead)
    } else if str_eq(n, "log.read") || str_eq(n, "run.logs") {
        Some(Action::LogRead)
    } else if str_eq(n, "credential.use") || str_eq(n, "credentials.use") {
        Some(Action::SecretUse)
    } else if str_eq(n, "audit.read") {
        Some(Action::AuditRead)
    } else {
        None
    }
}

/// Some source permission corresponds to `a`.
pub open spec fn grants_source_action(permissions: Seq<String>, a: Action) -> bool {
    exists|i: int| 0 <= i < permissions.len() && permission_action(normalized((#[trigger] permissions[i])@)) == Some(a)
}

/// Some source permission is Jenkins' overall administer permission.
pub open spec fn source_is_admin(permissions: Seq<String>) -> bool {
    exists|i: int| 0 <= i < permissions.len() && normalized((#[trigger] permissions[i])@) == "overall.administer"@
}

fn normalized_actions(permissions: &Vec<String>) -> (r: Vec<Option<Action>>)
    ensures
        r@.len() == permissions@.len(),
        forall|i: int| 0 <= i < r@.len() ==> #[trigger] r@[i] == permission_action(normalized(permissions@[i]@)),
{
    let mut r: Vec<Option<Action>> = Vec::new();
    let mut i: usize = 0;
    while i < permissions.len()
        invariant
            i <= permissions@.len(),
            r@.len() == i,
            forall|j: int| 0 <= j < i ==> #[trigger] r@[j] == permission_action(normalized(permissions@[j]@)),
        decreases permissions@.len() - i,
    {
        let n = normalized_permission(permissions[i].as_str());
        r.push(permission_action_of(n.as_str()));
        i = i + 1;
    }
    r
}

/// The actions the source permissions correspond to, each once, in action
/// order.
pub fn source_actions(permissions: &Vec<String>) -> (r: Vec<Action>)
    ensures
        r@ == Action::mappable_order().filter(|a: Action| grants_source_action(permissions@, a)),
{
    let acts = normalized_actions(permissions);
    let candidates = Action::mappable();
    let ghost pred = |a: Action| grants_source_action(permissions@, a);
    let mut r: Vec<Action> = Vec::new();
    let mut k: usize = 0;
    while k < candidates.len()
        invariant
            k <= candidates@.len(),
            candidates@ == Action::mappable_order(),
            acts@.len() == permissions@.len(),
            forall|i: int| 0 <= i < acts@.len() ==> #[trigger] acts@[i] == permission_action(normalized(permissions@[i]@)),
            pred == (|a: Action| grants_source_action(permissions@, a)),
            r@ == candidates@.take(k as int).filter(pred),
        decreases candidates@.len() - k,
    {
        let a = candidates[k];
        let mut found = false;
        let mut i: usize = 0;
        while i < acts.len()
            invariant
                i <= acts@.len(),
                acts@.len() == permissions@.len(),
                forall|j: int| 0 <= j < acts@.len() ==> #[trigger] acts@[j] == permission_action(normalized(permissions@[j]@)),
                found == exists|j: int| 0 <= j < i && #[trigger] acts@[j] == Some(a),
            decreases acts@.len() - i,
        {
            if acts[i] == Some(a) {
                found = true;
            }
            i = i + 1;
        }
        proof {
            assert(found == grants_source_action(permissions@, a)) by {
                if found {
                    let j = choose|j: int| 0 <= j < acts@.len() && #[trigger] acts@[j] == Some(a);
                    assert(permission_action(normalized(permissions@[j]@)) == Some(a));
                }
                if grants_source_action(permissions@, a) {
                    let j = choose|j: int| 0 <= j < permissions@.len() && permission_action(
                        normalized((#[trigger] permissions@[j])@),
                    ) == Some(a);
                    assert(acts@[j] == Some(a));
                }
            }
            assert(candidates@.take(k + 1).drop_last() =~= candidates@.take(k as int));
            reveal(Seq::filter);
            assert(candidates@.take(k + 1).last() == a);
        }
        if found {
            r.push(a);
        }
        k = k + 1;
    }
    assert(candidates@.take(candidates@.len() as int) =~= candidates@);
    r
}

/// The mappable actions are listed once each.
proof fn lemma_mappable_order_distinct()
    ensures
        Action::mappable_order().no_duplicates(),
{
    let m = Action::mappable_order();
    assert forall|i: int, j: int| 0 <= i < m.len() && 0 <= j < m.len() && i != j implies m[i] != m[j] by {
        assert(m[0] == Action::ProjectView);
        assert(m[1] == Action::BuildTrigger);
        assert(m[2] == Action::BuildCancel);
        assert(m[3] == Action::ProjectConfigure);
        assert(m[4] == Action::ApprovalAct);
        assert(m[5] == Action::BuildRetry);
        assert(m[6] == Action::ArtifactRead);
        assert(m[7] == Action::ArtifactWrite);
        assert(m[8] == Action::TestRead);
        assert(m[9] == Action::LogRead);
        assert(m[10] == Action::SecretUse);
        assert(m[11] == Action::AuditRead);
    }
}

/// Filtering a list without repeats by "is `x`" keeps `x` alone, if the
/// list has it, and nothing otherwise.
proof fn lemma_filter_keeps_one(s: Seq<Action>, pred: spec_fn(Action) -> bool, x: Option<Action>)
    requires
        s.no_duplicates(),
        forall|a: Action| #[trigger] pred(a) == (x == Some(a)),
    ensures
        s.filter(pred) == (if x is Some && s.contains(x->0) {
            seq![x->0]
        } else {
            Seq::<Action>::empty()
        }),
    decreases s.len(),
{
    reveal(Seq::filter);
    if s.len() > 0 {
        let t = s.drop_last();
        let v = s.last();
        assert forall|i: int, j: int| 0 <= i < t.len() && 0 <= j < t.len() && i != j implies t[i] != t[j] by {
            assert(t[i] == s[i]);
            assert(t[j] == s[j]);
        }
        lemma_filter_keeps_one(t, pred, x);
        assert(s[s.len() - 1] == v);
        if x is Some {
            let y = x->0;
            if v == y {
                if t.contains(y) {
                    let i = choose|i: int| 0 <= i < t.len() && t[i] == y;
                    assert(s[i] == y);
                }
                assert(s.contains(y));
                assert(s.filter(pred) =~= seq![y]);
            } else {
                if s.contains(y) {
                    let i = choose|i: int| 0 <= i < s.len() && s[i] == y;
                    assert(t[i] == y);
                }
                if t.contains(y) {
                    let i = choose|i: int| 0 <= i < t.len() && t[i] == y;
                    assert(s[i] == y);
                }
            }
        }
    }
}

/// The actions of one source permission: the one its normalized name
/// corresponds to, or none.
proof fn lemma_single_permission_actions(p: String)
    ensures
        Action::mappable_order().filter(|a: Action| grants_source_action(seq![p], a)) == match permission_action(
            normalized(p@),
        ) {
            Some(y) => seq![y],
            None => Seq::<Action>::empty(),
        },
{
    let ps = seq![p];
    let x = permission_action(normalized(p@));
    let pred = |a: Action| grants_source_action(ps, a);
    assert(ps[0] == p);
    assert forall|a: Action| #[trigger] pred(a) == (x == Some(a)) by {
        if pred(a) {
            let i = choose|i: int| 0 <= i < ps.len() && permission_action(normalized((#[trigger] ps[i])@)) == Some(a);
            assert(i == 0);
        }
        if x == Some(a) {
            assert(permission_action(normalized(ps[0]@)) == Some(a));
        }
    }
    lemma_mappable_order_distinct();
    lemma_filter_keeps_one(Action::mappable_order(), pred, x);
    if x is Some {
        assert(x->0 != Action::SchedulerControl);
        lemma_mappable_contains(x->0);
    }
}

/// The Jenkins permission table: one source permission maps to exactly the
/// action documented for its normalized name, and to none when the name is
/// not in the table.
pub proof fn law_single_permission_maps_to_documented_action(p: String)
    ensures
        ({
            let n = normalized(p@);
            let got = Action::mappable_order().filter(|a: Action| grants_source_action(seq![p], a));
            &&& (n == "job.read"@ || n == "item.read"@) ==> got == seq![Action::ProjectView]
            &&& (n == "job.build"@ || n == "item.build"@) ==> got == seq![Action::BuildTrigger]
            &&& (n == "job.cancel"@ || n == "run.cancel"@) ==> got == seq![Action::BuildCancel]
            &&& (n == "job.configure"@ || n == "item.configure"@) ==> got == seq![Action::ProjectConfigure]
            &&& (n == "job.approve"@ || n == "input.approve"@) ==> got == seq![Action::ApprovalAct]
            &&& (n == "job.retry"@ || n == "run.replay"@ || n == "run.retry"@) ==> got == seq![Action::BuildRetry]
            &&& (n == "artifact.read"@ || n == "run.artifacts"@) ==> got == seq![Action::ArtifactRead]
            &&& n == "artifact.write"@ ==> got == seq![Action::ArtifactWrite]
            &&& (n == "test.read"@ || n == "run.tests"@) ==> got == seq![Action::TestRead]
            &&& (n == "log.read"@ || n == "run.logs"@) ==> got == seq![Action::LogRead]
            &&& (n == "credential.use"@ || n == "credentials.use"@) ==> got == seq![Action::SecretUse]
            &&& n == "audit.read"@ ==> got == seq![Action::AuditRead]
            &&& !(n == "job.read"@ || n == "item.read"@ || n == "job.build"@ || n == "item.build"@ || n
                == "job.cancel"@ || n == "run.cancel"@ || n == "job.configure"@ || n == "item.configure"@
                || n == "job.approve"@ || n == "input.approve"@ || n == "job.retry"@ || n == "run.replay"@
                || n == "run.retry"@ || n == "artifact.read"@ || n == "run.artifacts"@ || n
                == "artifact.write"@ || n == "test.read"@ || n == "run.tests"@ || n == "log.read"@ || n
                == "run.logs"@ || n == "credential.use"@ || n == "credentials.use"@ || n == "audit.read"@)
                ==> got == Seq::<Action>::empty()
        }),
{
    lemma_single_permission_actions(p);
    reveal_strlit("job.read");
    reveal_strlit("item.read");
    reveal_strlit("job.build");
    reveal_strlit("item.build");
    reveal_strlit("job.cancel");
    reveal_strlit("run.cancel");
    reveal_strlit("job.configure");
    reveal_strlit("item.configure");
    reveal_strlit("job.approve");
    reveal_strlit("input.approve");
    reveal_strlit("job.retry");
    reveal_strlit("run.replay");
    reveal_strlit("run.retry");
    reveal_strlit("artifact.read");
    reveal_strlit("run.artifacts");
    reveal_strlit("artifact.write");
    reveal_strlit("test.read");
    reveal_strlit("run.tests");
    reveal_strlit("log.read");
    reveal_strlit("run.logs");
    reveal_strlit("credential.use");
    reveal_strlit("credentials.use");
    reveal_strlit("audit.read");
    assert("job.read"@.len() == 8);
    assert("item.read"@.len() == 9);
    assert("job.build"@.len() == 9);
    assert("item.build"@.len() == 10);
    assert("job.cancel"@.len() == 10);
    assert("run.cancel"@.len() == 10);
    assert("job.configure"@.len() == 13);
    assert("item.configure"@.len() == 14);
    assert("job.approve"@.len() == 11);
    assert("input.approve"@.len() == 13);
    assert("job.retry"@.len() == 9);
    assert("run.replay"@.len() == 10);
    assert("run.retry"@.len() == 9);
    assert("artifact.read"@.len() == 13);
    assert("run.artifacts"@.len() == 13);
    assert("artifact.write"@.len() == 14);
    assert("test.read"@.len() == 9);
    assert("run.tests"@.len() == 9);
    assert("log.read"@.len() == 8);
    assert("run.logs"@.len() == 8);
    assert("credential.use"@.len() == 14);
    assert("credentials.use"@.len() == 15);
    assert("audit.read"@.len() == 10);
    assert("job.read"@[0] == 'j');
    assert("item.read"@[0] == 'i');
    assert("job.build"@[0] == 'j');
    assert("item.build"@[0] == 'i');
    assert("job.cancel"@[0] == 'j');
    assert("run.cancel"@[0] == 'r');
    assert("job.configure"@[0] == 'j');
    assert("item.configure"@[0] == 'i');
    assert("job.approve"@[0] == 'j');
    assert("input.approve"@[0] == 'i');
    assert("job.retry"@[0] == 'j');
    assert("run.replay"@[0] == 'r');
    assert("run.retry"@[0] == 'r');
    assert("artifact.read"@[0] == 'a');
    assert("run.artifacts"@[0] == 'r');
    assert("artifact.write"@[0] == 'a');
    assert("test.read"@[0] == 't');
    assert("run.tests"@[0] == 'r');
    assert("log.read"@[0] == 'l');
    assert("run.logs"@[0] == 'r');
    assert("credential.use"@[0] == 'c');
    assert("credentials.use"@[0] == 'c');
    assert("audit.read"@[0] == 'a');
    assert("job.build"@[4] == 'b');
    assert("job.retry"@[4] == 'r');
    assert("run.retry"@[4] == 'r');
    assert("run.tests"@[4] == 't');
    assert("run.cancel"@[4] == 'c');
    assert("run.replay"@[4] == 'r');
}

fn any_admin(permissions: &Vec<String>) -> (r: bool)
    ensures
        r == source_is_admin(permissions@),
{
    let mut i: usize = 0;
    while i < permissions.len()
        invariant
            i <= permissions@.len(),
            forall|j: int| 0 <= j < i ==> normalized((#[trigger] permissions@[j])@) != "overall.administer"@,
        decreases permissions@.len() - i,
    {
        let n = normalized_permission(permissions[i].as_str());
        if str_eq(n.as_str(), "overall.administer") {
            return true;
        }
        i = i + 1;
    }
    false
}

/// Non-empty, not padded with whitespace, and at most `max` UTF-8 bytes.
pub open spec fn policy_text_ok(s: Seq<char>, max: nat) -> bool {
    s.len() > 0 && !is_padded(s) && byte_len(s) <= max
}

pub open spec fn text_message(label: Seq<char>) -> Seq<char> {
    label + " is empty, padded, or too long"@
}

/// The refusal `r` carries, as an invalid authorization operation with
/// message `m`.
pub open spec fn refused_with(r: Result<(), StoreError>, rejection: Option<Seq<char>>) -> bool {
    match r {
        Ok(()) => rejection is None,
        Err(StoreError::InvalidAuthorizationOperation(m)) => rejection == Some(m@),
        Err(_) => false,
    }
}

pub fn validate_text(label: &str, value: &str, maximum: usize) -> (r: Result<(), StoreError>)
    ensures
        refused_with(
            r,
            if policy_text_ok(value@, maximum as nat) {
                None
            } else {
                Some(text_message(label@))
            },
        ),
{
    let empty = chars_of(value).len() == 0;
    if empty || padded(value) || utf8_len(value) > maximum {
        return Err(
            StoreError::InvalidAuthorizationOperation(concat_str(label, " is empty, padded, or too long")),
        );
    }
    Ok(())
}

fn invalid(message: &str) -> (r: Result<(), StoreError>)
    ensures
        refused_with(r, Some(message@)),
{
    Err(StoreError::InvalidAuthorizationOperation(message.to_owned()))
}

/// Why one decision of a mapping is refused, if it is.
pub open spec fn decision_rejection(m: AuthorizationPrincipalMappingWrite, a: Action, d: GrantDecision) -> Option<Seq<char>> {
    if d == GrantDecision::Allow && m.source_lifecycle_state@ != "active"@ {
        Some("inactive source principals cannot produce target allow decisions"@)
    } else if a == Action::SchedulerControl {
        Some("Jenkins ACL mappings cannot grant scheduler control"@)
    } else if d == GrantDecision::Allow && !source_is_admin(m.source_permissions@) && !grants_source_action(
        m.source_permissions@,
        a,
    ) {
        Some("target allow decision broadens the source Jenkins ACL"@)
    } else {
        None
    }
}

/// The rejection of the first of the decisions, in order, that has one.
pub open spec fn first_decision_rejection(m: AuthorizationPrincipalMappingWrite, ds: Seq<(Action, GrantDecision)>) -> Option<Seq<char>>
    decreases ds.len(),
{
    if ds.len() == 0 {
        None
    } else {
        let earlier = first_decision_rejection(m, ds.drop_last());
        if earlier is Some {
            earlier
        } else {
            decision_rejection(m, ds.last().0, ds.last().1)
        }
    }
}

pub open spec fn known_lifecycle(s: Seq<char>) -> bool {
    s == "active"@ || s == "disabled"@ || s == "deleted"@
}

/// Why a mapping is refused, by the first rule it breaks.
pub open spec fn mapping_rejection(m: AuthorizationPrincipalMappingWrite) -> Option<Seq<char>> {
    if !policy_text_ok(m.source_identity_id@, 512) {
        Some(text_message("source identity identifier"@))
    } else if !json_is_array(m.source_alias_history@) {
        Some("source alias history must be a JSON array"@)
    } else if m.source_membership_generation <= 0 || m.target_lifecycle_generation <= 0
        || m.target_group_generation <= 0 {
        Some("authorization identity generations must be positive"@)
    } else if !known_lifecycle(m.source_lifecycle_state@) {
        Some("source lifecycle state is unknown"@)
    } else if !policy_text_ok(m.source_acl_entry_id@, 1024) {
        Some(text_message("source ACL entry identifier"@))
    } else if !policy_text_ok(m.source_acl_scope@, 1024) {
        Some(text_message("source ACL scope"@))
    } else if !policy_text_ok(m.source_acl_generation@, 512) {
        Some(text_message("source ACL generation"@))
    } else if !policy_text_ok(m.resulting_role@, 128) {
        Some(text_message("resulting role"@))
    } else if m.source_permissions@.len() == 0 || m.decisions@.len() == 0 {
        Some("authorization mappings require source permissions and decisions"@)
    } else if (m.target_provider_id is Some) != (m.target_external_subject is Some) {
        Some("target provider and external subject must be supplied together"@)
    } else if m.target_external_subject matches Some(s) && !policy_text_ok(s@, 512) {
        Some(text_message("target external subject"@))
    } else {
        first_decision_rejection(m, m.decisions@)
    }
}

proof fn lemma_first_decision_prefix(m: AuthorizationPrincipalMappingWrite, ds: Seq<(Action, GrantDecision)>, n: int)
    requires
        0 <= n <= ds.len(),
        first_decision_rejection(m, ds.take(n)) is Some,
    ensures
        first_decision_rejection(m, ds) == first_decision_rejection(m, ds.take(n)),
    decreases ds.len() - n,
{
    if n < ds.len() {
        assert(ds.take(n + 1).drop_last() =~= ds.take(n));
        lemma_first_decision_prefix(m, ds, n + 1);
    } else {
        assert(ds.take(n) =~= ds);
    }
}

fn contains_action(actions: &Vec<Action>, a: Action) -> (r: bool)
    ensures
        r == actions@.contains(a),
{
    let mut i: usize = 0;
    while i < actions.len()
        invariant
            i <= actions@.len(),
            forall|j: int| 0 <= j < i ==> actions@[j] != a,
        decreases actions@.len() - i,
    {
        if actions[i] == a {
            return true;
        }
        i = i + 1;
    }
    false
}

/// Checks one mapping against every rule that needs nothing from the store.
pub fn validate_mapping(mapping: &AuthorizationPrincipalMappingWrite) -> (r: Result<(), StoreError>)
    ensures
        refused_with(r, mapping_rejection(*mapping)),
{
    if let Err(e) = validate_text("source identity identifier", mapping.source_identity_id.as_str(), 512) {
        return Err(e);
    }
    if !json_array(mapping.source_alias_history.as_slice()) {
        return invalid("source alias history must be a JSON array");
    }
    if mapping.source_membership_generation <= 0 || mapping.target_lifecycle_generation <= 0
        || mapping.target_group_generation <= 0 {
        return invalid("authorization identity generations must be positive");
    }
    let state = mapping.source_lifecycle_state.as_str();
    if !(str_eq(state, "active") || str_eq(state, "disabled") || str_eq(state, "deleted")) {
        return invalid("source lifecycle state is unknown");
    }
    if let Err(e) = validate_text("source ACL entry identifier", mapping.source_acl_entry_id.as_str(), 1024) {
        return Err(e);
    }
    if let Err(e) = validate_text("source ACL scope", mapping.source_acl_scope.as_str(), 1024) {
        return Err(e);
    }
    if let Err(e) = validate_text("source ACL generation", mapping.source_acl_generation.as_str(), 512) {
        return Err(e);
    }
    if let Err(e) = validate_text("resulting role", mapping.resulting_role.as_str(), 128) {
        return Err(e);
    }
    if mapping.source_permissions.len() == 0 || mapping.decisions.len() == 0 {
        return invalid("authorization mappings require source permissions and decisions");
    }
    if mapping.target_provider_id.is_some() != mapping.target_external_subject.is_some() {
        return invalid("target provider and external subject must be supplied together");
    }
    if let Some(subject) = &mapping.target_external_subject {
        if let Err(e) = validate_text("target external subject", subject.as_str(), 512) {
            return Err(e);
        }
    }
    let actions = source_actions(&mapping.source_permissions);
    let admin = any_admin(&mapping.source_permissions);
    let active = str_eq(state, "active");
    let ds = &mapping.decisions;
    let ghost pred = |a: Action| grants_source_action(mapping.source_permissions@, a);
    let mut i: usize = 0;
    assert(ds@.take(0) =~= Seq::<(Action, GrantDecision)>::empty());
    while i < ds.len()
        invariant
            i <= ds@.len(),
            ds@ == mapping.decisions@,
            actions@ == Action::mappable_order().filter(pred),
            pred == (|a: Action| grants_source_action(mapping.source_permissions@, a)),
            admin == source_is_admin(mapping.source_permissions@),
            active == (mapping.source_lifecycle_state@ == "active"@),
            mapping_rejection(*mapping) == first_decision_rejection(*mapping, ds@),
            first_decision_rejection(*mapping, ds@.take(i as int)) is None,
        decreases ds@.len() - i,
    {
        let (a, d) = ds[i];
        proof {
            assert(ds@.take(i + 1).drop_last() =~= ds@.take(i as int));
            assert(ds@.take(i + 1).last() == ds@[i as int]);
            Action::mappable_order().filter_lemma(pred);
            if grants_source_action(mapping.source_permissions@, a) {
                let j = choose|j: int| 0 <= j < mapping.source_permissions@.len() && permission_action(
                    normalized((#[trigger] mapping.source_permissions@[j])@),
                ) == Some(a);
                assert(a != Action::SchedulerControl);
                lemma_mappable_contains(a);
                let k = choose|k: int| 0 <= k < Action::mappable_order().len() && Action::mappable_order()[k] == a;
                assert(Action::mappable_order().filter(pred).contains(a)) by {
                    Action::mappable_order().lemma_filter_contains_rev(pred, a);
                }
            }
        }
        let mut refusal: Option<&str> = None;
        if d == GrantDecision::Allow && !active {
            refusal = Some("inactive source principals cannot produce target allow decisions");
        } else if a == Action::SchedulerControl {
            refusal = Some("Jenkins ACL mappings cannot grant scheduler control");
        } else if d == GrantDecision::Allow && !admin && !contains_action(&actions, a) {
            refusal = Some("target allow decision broadens the source Jenkins ACL");
        }
        if let Some(message) = refusal {
            proof {
                lemma_first_decision_prefix(*mapping, ds@, i + 1);
            }
            return invalid(message);
        }
        i = i + 1;
    }
    assert(ds@.take(ds@.len() as int) =~= ds@);
    Ok(())
}

proof fn lemma_mappable_contains(a: Action)
    requires
        a != Action::SchedulerControl,
    ensures
        Action::mappable_order().contains(a),
{
    let m = Action::mappable_order();
    match a {
        Action::ProjectView => assert(m[0] == a),
        Action::BuildTrigger => assert(m[1] == a),
        Action::BuildCancel => assert(m[2] == a),
        Action::ProjectConfigure => assert(m[3] == a),
        Action::ApprovalAct => assert(m[4] == a),
        Action::BuildRetry => assert(m[5] == a),
        Action::ArtifactRead => assert(m[6] == a),
        Action::ArtifactWrite => assert(m[7] == a),
        Action::TestRead => assert(m[8] == a),
        Action::LogRead => assert(m[9] == a),
        Action::SecretUse => assert(m[10] == a),
        Action::AuditRead => assert(m[11] == a),
        Action::SchedulerControl => {},
    }
}

/// Some mapping before position `i` has the same identifier as `i`.
pub open spec fn repeats_mapping_id(ms: Seq<AuthorizationPrincipalMappingWrite>, i: int) -> bool {
    exists|j: int| 0 <= j < i && (#[trigger] ms[j]).mapping_id == ms[i].mapping_id
}

/// The rejection of the first mapping, in order, that has one.
pub open spec fn first_mapping_rejection(ms: Seq<AuthorizationPrincipalMappingWrite>) -> Option<Seq<char>>
    decreases ms.len(),
{
    if ms.len() == 0 {
        None
    } else {
        let earlier = first_mapping_rejection(ms.drop_last());
        if earlier is Some {
            earlier
        } else if repeats_mapping_id(ms, ms.len() - 1) {
            Some("authorization mapping identifiers must be unique"@)
        } else {
            mapping_rejection(ms.last())
        }
    }
}

/// Why a policy write is refused before anything is read from the store.
pub open spec fn policy_rejection(input: AuthorizationPolicyWrite) -> Option<Seq<char>> {
    if input.generation <= 0 {
        Some("authorization policy generation must be positive"@)
    } else if !policy_text_ok(input.source_realm_implementation@, 512) {
        Some(text_message("source realm implementation"@))
    } else if !policy_text_ok(input.reviewer@, 512) {
        Some(text_message("approver"@))
    } else if !policy_text_ok(input.actor_subject@, 512) {
        Some(text_message("actor subject"@))
    } else {
        first_mapping_rejection(input.mappings@)
    }
}

proof fn lemma_first_mapping_prefix(ms: Seq<AuthorizationPrincipalMappingWrite>, n: int)
    requires
        0 <= n <= ms.len(),
        first_mapping_rejection(ms.take(n)) is Some,
    ensures
        first_mapping_rejection(ms) == first_mapping_rejection(ms.take(n)),
    decreases ms.len() - n,
{
    if n < ms.len() {
        assert(ms.take(n + 1).drop_last() =~= ms.take(n));
        lemma_first_mapping_prefix(ms, n + 1);
    } else {
        assert(ms.take(n) =~= ms);
    }
}

proof fn lemma_repeats_in_prefix(ms: Seq<AuthorizationPrincipalMappingWrite>, i: int)
    requires
        0 <= i < ms.len(),
    ensures
        repeats_mapping_id(ms.take(i + 1), i) == repeats_mapping_id(ms, i),
{
    let t = ms.take(i + 1);
    if repeats_mapping_id(ms, i) {
        let j = choose|j: int| 0 <= j < i && (#[trigger] ms[j]).mapping_id == ms[i].mapping_id;
        assert(t[j] == ms[j]);
    }
    if repeats_mapping_id(t, i) {
        let j = choose|j: int| 0 <= j < i && (#[trigger] t[j]).mapping_id == t[i].mapping_id;
        assert(t[j] == ms[j]);
    }
}

/// Checks a policy write against every rule that needs nothing from the
/// store, in a fixed order, and reports the first one it breaks.
pub fn validate_policy(input: &AuthorizationPolicyWrite) -> (r: Result<(), StoreError>)
    ensures
        refused_with(r, policy_rejection(*input)),
{
    if input.generation <= 0 {
        return invalid("authorization policy generation must be positive");
    }
    if let Err(e) = validate_text("source realm implementation", input.source_realm_implementation.as_str(), 512) {
        return Err(e);
    }
    if let Err(e) = validate_text("approver", input.reviewer.as_str(), 512) {
        return Err(e);
    }
    if let Err(e) = validate_text("actor subject", input.actor_subject.as_str(), 512) {
        return Err(e);
    }
    let ms = &input.mappings;
    let mut i: usize = 0;
    assert(ms@.take(0) =~= Seq::<AuthorizationPrincipalMappingWrite>::empty());
    while i < ms.len()
        invariant
            i <= ms@.len(),
            ms@ == input.mappings@,
            policy_rejection(*input) == first_mapping_rejection(ms@),
            first_mapping_rejection(ms@.take(i as int)) is None,
        decreases ms@.len() - i,
    {
        proof {
            assert(ms@.take(i + 1).drop_last() =~= ms@.take(i as int));
            assert(ms@.take(i + 1).last() == ms@[i as int]);
            lemma_repeats_in_prefix(ms@, i as int);
        }
        let mut repeated = false;
        let mut j: usize = 0;
        while j < i
            invariant
                i < ms@.len(),
                j <= i,
                repeated == exists|k: int| 0 <= k < j && (#[trigger] ms@[k]).mapping_id == ms@[i as int].mapping_id,
            decreases i - j,
        {
            if ms[j].mapping_id == ms[i].mapping_id {
                repeated = true;
            }
            j = j + 1;
        }
        if repeated {
            proof {
                lemma_first_mapping_prefix(ms@, i + 1);
            }
            return invalid("authorization mapping identifiers must be unique");
        }
        if let Err(e) = validate_mapping(&ms[i]) {
            proof {
                lemma_first_mapping_prefix(ms@, i + 1);
            }
            return Err(e);
        }
        i = i + 1;
    }
    assert(ms@.take(ms@.len() as int) =~= ms@);
    Ok(())
}

/// Each source permission name, framed, in order.
pub open spec fn permission_bytes(ps: Seq<String>) -> Seq<u8>
    decreases ps.len(),
{
    if ps.len() == 0 {
        Seq::empty()
    } else {
        permission_bytes(ps.drop_last()) + framed(encode_utf8(ps.last()@))
    }
}

/// Each decision's action and outcome names, framed, in order.
pub open spec fn decision_bytes(ds: Seq<(Action, GrantDecision)>) -> Seq<u8>
    decreases ds.len(),
{
    if ds.len() == 0 {
        Seq::empty()
    } else {
        decision_bytes(ds.drop_last()) + framed(encode_utf8(ds.last().0.name())) + framed(
            encode_utf8(ds.last().1.name()),
        )
    }
}

/// The bytes hashed into a mapping's digest.
pub open spec fn mapping_preimage(m: AuthorizationPrincipalMappingWrite) -> Seq<u8> {
    framed(encode_utf8("mcloving-authorization-mapping-v1"@)) + framed(id_bytes(m.mapping_id)) + framed(
        id_bytes(m.target_identity_id),
    ) + framed(encode_utf8(m.source_identity_id@)) + framed(m.source_alias_history@) + framed(
        i64_be(m.source_membership_generation),
    ) + framed(encode_utf8(m.source_lifecycle_state@)) + framed(encode_utf8(m.source_acl_entry_id@)) + framed(
        encode_utf8(m.source_acl_scope@),
    ) + framed(encode_utf8(m.source_acl_generation@)) + permission_bytes(m.source_permissions@) + framed(
        id_bytes(
            match m.target_provider_id {
                Some(p) => p,
                None => 0,
            },
        ),
    ) + framed(opt_text_bytes(m.target_external_subject)) + framed(i64_be(m.target_lifecycle_generation)) + framed(
        i64_be(m.target_group_generation),
    ) + framed(m.target_provenance_digest@) + framed(encode_utf8(m.resulting_role@)) + decision_bytes(m.decisions@)
}

pub open spec fn mapping_digest(m: AuthorizationPrincipalMappingWrite) -> Seq<u8> {
    sha256_spec(mapping_preimage(m))
}

fn push_permissions(msg: &mut Vec<u8>, ps: &Vec<String>)
    ensures
        final(msg)@ == old(msg)@ + permission_bytes(ps@),
{
    let mut i: usize = 0;
    assert(ps@.take(0) =~= Seq::<String>::empty());
    while i < ps.len()
        invariant
            i <= ps@.len(),
            msg@ == old(msg)@ + permission_bytes(ps@.take(i as int)),
        decreases ps@.len() - i,
    {
        push_framed_str(msg, ps[i].as_str());
        proof {
            assert(ps@.take(i + 1).drop_last() =~= ps@.take(i as int));
            assert(ps@.take(i + 1).last() == ps@[i as int]);
        }
        i = i + 1;
    }
    assert(ps@.take(ps@.len() as int) =~= ps@);
}

fn push_decisions(msg: &mut Vec<u8>, ds: &Vec<(Action, GrantDecision)>)
    ensures
        final(msg)@ == old(msg)@ + decision_bytes(ds@),
{
    let mut i: usize = 0;
    assert(ds@.take(0) =~= Seq::<(Action, GrantDecision)>::empty());
    while i < ds.len()
        invariant
            i <= ds@.len(),
            msg@ == old(msg)@ + decision_bytes(ds@.take(i as int)),
        decreases ds@.len() - i,
    {
        let (a, d) = ds[i];
        push_framed_str(msg, a.as_str());
        push_framed_str(msg, d.as_str());
        proof {
            assert(ds@.take(i + 1).drop_last() =~= ds@.take(i as int));
            assert(ds@.take(i + 1).last() == ds@[i as int]);
        }
        i = i + 1;
    }
    assert(ds@.take(ds@.len() as int) =~= ds@);
}

/// Digest of one principal mapping.
#[verifier::rlimit(40)]
pub fn compute_mapping_digest(mapping: &AuthorizationPrincipalMappingWrite) -> (r: [u8; 32])
    ensures
        r@ == mapping_digest(*mapping),
{
    let m = mapping;
    let mut msg: Vec<u8> = Vec::new();
    push_framed_str(&mut msg, "mcloving-authorization-mapping-v1");
    push_framed_id(&mut msg, m.mapping_id);
    push_framed_id(&mut msg, m.target_identity_id);
    push_framed_str(&mut msg, m.source_identity_id.as_str());
    push_framed(&mut msg, m.source_alias_history.as_slice());
    push_framed_i64(&mut msg, m.source_membership_generation);
    push_framed_str(&mut msg, m.source_lifecycle_state.as_str());
    push_framed_str(&mut msg, m.source_acl_entry_id.as_str());
    push_framed_str(&mut msg, m.source_acl_scope.as_str());
    push_framed_str(&mut msg, m.source_acl_generation.as_str());
    push_permissions(&mut msg, &m.source_permissions);
    let provider: u128 = match m.target_provider_id {
        Some(p) => p,
        None => 0,
    };
    push_framed_id(&mut msg, provider);
    push_framed_opt_str(&mut msg, &m.target_external_subject);
    push_framed_i64(&mut msg, m.target_lifecycle_generation);
    push_framed_i64(&mut msg, m.target_group_generation);
    push_framed(&mut msg, &m.target_provenance_digest);
    push_framed_str(&mut msg, m.resulting_role.as_str());
    push_decisions(&mut msg, &m.decisions);
    assert(msg@ =~= mapping_preimage(*m));
    sha256(msg.as_slice())
}

/// Order by identifier, then by position in the write.
pub open spec fn key_lt(a: (u128, int, Seq<u8>), b: (u128, int, Seq<u8>)) -> bool {
    a.0 < b.0 || (a.0 == b.0 && a.1 < b.1)
}

pub open spec fn strictly_keyed(s: Seq<(u128, int, Seq<u8>)>) -> bool {
    forall|i: int, j: int| 0 <= i < j < s.len() ==> key_lt(#[trigger] s[i], #[trigger] s[j])
}

pub open spec fn keyed_mappings(ms: Seq<AuthorizationPrincipalMappingWrite>) -> Seq<(u128, int, Seq<u8>)> {
    Seq::new(ms.len(), |i: int| (ms[i].mapping_id, i, mapping_digest(ms[i])))
}

/// The mappings' digests ordered by mapping identifier; mappings with one
/// identifier keep the order in which they were written.
pub open spec fn mappings_in_id_order(ms: Seq<AuthorizationPrincipalMappingWrite>) -> Seq<(u128, int, Seq<u8>)> {
    choose|s: Seq<(u128, int, Seq<u8>)>| s.to_multiset() == keyed_mappings(ms).to_multiset() && strictly_keyed(s)
}

pub open spec fn digest_section(s: Seq<(u128, int, Seq<u8>)>) -> Seq<u8>
    decreases s.len(),
{
    if s.len() == 0 {
        Seq::empty()
    } else {
        digest_section(s.drop_last()) + framed(s.last().2)
    }
}

/// The bytes hashed into a policy's digest.
pub open spec fn policy_preimage(input: AuthorizationPolicyWrite) -> Seq<u8> {
    framed(encode_utf8("mcloving-authorization-policy-v1"@)) + framed(id_bytes(input.organization_id)) + framed(
        id_bytes(input.project_id),
    ) + framed(i64_be(input.generation)) + framed(encode_utf8(input.source_realm_implementation@)) + framed(
        input.source_realm_digest@,
    ) + framed(input.source_inventory_digest@) + framed(encode_utf8(input.reviewer@)) + framed(
        i64_be(
            match input.restored_from_generation {
                Some(g) => g,
                None => 0,
            },
        ),
    ) + digest_section(mappings_in_id_order(input.mappings@))
}

pub open spec fn policy_digest(input: AuthorizationPolicyWrite) -> Seq<u8> {
    sha256_spec(policy_preimage(input))
}

proof fn lemma_keyed_unique(x: Seq<(u128, int, Seq<u8>)>, y: Seq<(u128, int, Seq<u8>)>)
    requires
        strictly_keyed(x),
        strictly_keyed(y),
        x.to_multiset() == y.to_multiset(),
    ensures
        x == y,
    decreases x.len(),
{
    broadcast use vstd::seq_lib::group_to_multiset_ensures;

    vstd::seq_lib::to_multiset_len(x);
    vstd::seq_lib::to_multiset_len(y);
    if x.len() == 0 {
        assert(x =~= y);
    } else {
        let a = x[0];
        let b = y[0];
        vstd::seq_lib::to_multiset_contains(x, a);
        vstd::seq_lib::to_multiset_contains(y, a);
        vstd::seq_lib::to_multiset_contains(y, b);
        vstd::seq_lib::to_multiset_contains(x, b);
        assert(x.contains(a));
        let j = choose|j: int| 0 <= j < y.len() && y[j] == a;
        let i = choose|i: int| 0 <= i < x.len() && x[i] == b;
        if j > 0 {
            assert(key_lt(y[0], y[j]));
        }
        if i > 0 {
            assert(key_lt(x[0], x[i]));
        }
        assert(a == b);
        vstd::seq_lib::to_multiset_remove(x, 0);
        vstd::seq_lib::to_multiset_remove(y, 0);
        assert(x.remove(0) =~= x.drop_first());
        assert(y.remove(0) =~= y.drop_first());
        lemma_keyed_unique(x.drop_first(), y.drop_first());
        assert(x =~= seq![a] + x.drop_first());
        assert(y =~= seq![b] + y.drop_first());
    }
}

pub open spec fn entry_view(e: (u128, usize, [u8; 32])) -> (u128, int, Seq<u8>) {
    (e.0, e.1 as int, e.2@)
}

pub open spec fn entries_view(v: Seq<(u128, usize, [u8; 32])>) -> Seq<(u128, int, Seq<u8>)> {
    v.map_values(|e: (u128, usize, [u8; 32])| entry_view(e))
}

/// The digests of the mappings, ordered by identifier, then by position.
fn ordered_mapping_digests(ms: &Vec<AuthorizationPrincipalMappingWrite>) -> (r: Vec<(u128, usize, [u8; 32])>)
    ensures
        entries_view(r@) == mappings_in_id_order(ms@),
{
    broadcast use vstd::seq_lib::group_to_multiset_ensures;

    let ghost keyed = keyed_mappings(ms@);
    let mut r: Vec<(u128, usize, [u8; 32])> = Vec::new();
    let mut i: usize = 0;
    assert(entries_view(r@) =~= keyed.take(0));
    while i < ms.len()
        invariant
            i <= ms@.len(),
            keyed == keyed_mappings(ms@),
            strictly_keyed(entries_view(r@)),
            entries_view(r@).to_multiset() == keyed.take(i as int).to_multiset(),
            forall|q: int| 0 <= q < r@.len() ==> (#[trigger] r@[q]).1 < i,
        decreases ms@.len() - i,
    {
        let id = ms[i].mapping_id;
        let digest = compute_mapping_digest(&ms[i]);
        let mut p: usize = 0;
        while p < r.len() && r[p].0 <= id
            invariant
                p <= r@.len(),
                forall|q: int| 0 <= q < p ==> (#[trigger] r@[q]).0 <= id,
            decreases r@.len() - p,
        {
            p = p + 1;
        }
        let ghost old_r = r@;
        let ghost x = (id, i, digest);
        proof {
            let v = entries_view(old_r);
            assert forall|q: int| 0 <= q < p implies key_lt(#[trigger] v[q], entry_view(x)) by {
                assert(v[q] == entry_view(old_r[q]));
            }
            assert forall|q: int| p <= q < old_r.len() implies key_lt(entry_view(x), #[trigger] v[q]) by {
                if q > p {
                    assert(key_lt(v[p as int], v[q]));
                }
            }
        }
        r.insert(p, (id, i, digest));
        proof {
            let v = entries_view(old_r);
            let e = entry_view(x);
            assert(entries_view(r@) =~= v.insert(p as int, e));
            vstd::seq_lib::to_multiset_insert(v, p as int, e);
            assert(keyed.take(i + 1) =~= keyed.take(i as int).push(e));
            vstd::seq_lib::to_multiset_build(keyed.take(i as int), e);
            let w = entries_view(r@);
            assert forall|a: int, b: int| 0 <= a < b < w.len() implies key_lt(#[trigger] w[a], #[trigger] w[b]) by {
                if b < p {
                    assert(w[a] == v[a] && w[b] == v[b]);
                } else if b == p {
                    assert(w[a] == v[a]);
                } else if a == p {
                    assert(w[b] == v[b - 1]);
                } else if a < p {
                    assert(w[a] == v[a] && w[b] == v[b - 1]);
                    assert(key_lt(v[a], e));
                    assert(key_lt(e, v[b - 1]));
                } else {
                    assert(w[a] == v[a - 1] && w[b] == v[b - 1]);
                }
            }
            assert forall|q: int| 0 <= q < r@.len() implies (#[trigger] r@[q]).1 < i + 1 by {
                if q < p {
                    assert(r@[q] == old_r[q]);
                } else if q > p {
                    assert(r@[q] == old_r[q - 1]);
                }
            }
        }
        i = i + 1;
    }
    proof {
        assert(keyed.take(ms@.len() as int) =~= keyed);
        let s = entries_view(r@);
        assert(s.to_multiset() == keyed_mappings(ms@).to_multiset() && strictly_keyed(s));
        let c = mappings_in_id_order(ms@);
        lemma_keyed_unique(s, c);
    }
    r
}

/// Digest of a complete policy generation: its header and every mapping's
/// digest, ordered by mapping identifier.
#[verifier::rlimit(40)]
pub fn compute_authorization_policy_digest(input: &AuthorizationPolicyWrite) -> (r: Result<[u8; 32], StoreError>)
    ensures
        r matches Ok(d) && d@ == policy_digest(*input),
{
    let mut msg: Vec<u8> = Vec::new();
    push_framed_str(&mut msg, "mcloving-authorization-policy-v1");
    push_framed_id(&mut msg, input.organization_id);
    push_framed_id(&mut msg, input.project_id);
    push_framed_i64(&mut msg, input.generation);
    push_framed_str(&mut msg, input.source_realm_implementation.as_str());
    push_framed(&mut msg, &input.source_realm_digest);
    push_framed(&mut msg, &input.source_inventory_digest);
    push_framed_str(&mut msg, input.reviewer.as_str());
    let restored: i64 = match input.restored_from_generation {
        Some(g) => g,
        None => 0,
    };
    push_framed_i64(&mut msg, restored);
    let ghost head = msg@;
    let entries = ordered_mapping_digests(&input.mappings);
    let mut k: usize = 0;
    assert(entries_view(entries@).take(0) =~= Seq::<(u128, int, Seq<u8>)>::empty());
    while k < entries.len()
        invariant
            k <= entries@.len(),
            msg@ == head + digest_section(entries_view(entries@).take(k as int)),
        decreases entries@.len() - k,
    {
        push_framed(&mut msg, &entries[k].2);
        proof {
            let v = entries_view(entries@);
            assert(v.take(k + 1).drop_last() =~= v.take(k as int));
            assert(v.take(k + 1).last() == v[k as int]);
        }
        k = k + 1;
    }
    assert(entries_view(entries@).take(entries@.len() as int) =~= entries_view(entries@));
    assert(msg@ =~= policy_preimage(*input));
    Ok(sha256(msg.as_slice()))
}

/// No two mappings share an identifier.
pub open spec fn mapping_ids_distinct(ms: Seq<AuthorizationPrincipalMappingWrite>) -> bool {
    forall|i: int, j: int| 0 <= i < j < ms.len() ==> (#[trigger] ms[i]).mapping_id != (#[trigger] ms[j]).mapping_id
}

/// Two writes with the same mappings listed in another order, each free
/// of repeated mapping identifiers, have one policy digest.
pub proof fn law_policy_digest_ignores_mapping_order(a: AuthorizationPolicyWrite, b: AuthorizationPolicyWrite)
    requires
        a.mappings@.to_multiset() == b.mappings@.to_multiset(),
        mapping_ids_distinct(a.mappings@),
        mapping_ids_distinct(b.mappings@),
        a.organization_id == b.organization_id,
        a.project_id == b.project_id,
        a.generation == b.generation,
        a.source_realm_implementation@ == b.source_realm_implementation@,
        a.source_realm_digest@ == b.source_realm_digest@,
        a.source_inventory_digest@ == b.source_inventory_digest@,
        a.reviewer@ == b.reviewer@,
        a.restored_from_generation == b.restored_from_generation,
    ensures
        policy_digest(a) == policy_digest(b),
{
    let ma = a.mappings@;
    let mb = b.mappings@;
    let sa = mappings_in_id_order(ma);
    let sb = mappings_in_id_order(mb);
    lemma_in_id_order(ma);
    lemma_in_id_order(mb);
    lemma_ordered_by_id(ma, sa);
    lemma_ordered_by_id(mb, sb);
    let pa = id_digest_pairs(sa);
    let pb = id_digest_pairs(sb);
    assert forall|e: (u128, Seq<u8>)| pa.contains(e) <==> pb.contains(e) by {
        if pa.contains(e) {
            lemma_pair_carried(ma, mb, sa, sb, e);
        }
        if pb.contains(e) {
            lemma_pair_carried(mb, ma, sb, sa, e);
        }
    }
    lemma_pairs_unique(pa, pb);
    assert forall|k: int| 0 <= k < sa.len() implies (#[trigger] sa[k]).2 == sb[k].2 by {
        assert(pa[k] == pb[k]);
    }
    lemma_section_eq(sa, sb);
    assert(policy_preimage(a) =~= policy_preimage(b));
}

/// The ordered digests exist: `mappings_in_id_order` picks a strictly
/// keyed permutation of the keyed mappings.
proof fn lemma_in_id_order(ms: Seq<AuthorizationPrincipalMappingWrite>)
    ensures
        mappings_in_id_order(ms).to_multiset() == keyed_mappings(ms).to_multiset(),
        strictly_keyed(mappings_in_id_order(ms)),
{
    let k = keyed_mappings(ms);
    assert forall|i: int, j: int| 0 <= i < j < k.len() implies (#[trigger] k[i]).1 != (#[trigger] k[j]).1 by {}
    let w = sorted_keyed(k);
    assert(w.to_multiset() == k.to_multiset() && strictly_keyed(w));
}

/// A strictly keyed permutation of a sequence whose positions are distinct.
proof fn sorted_keyed(s: Seq<(u128, int, Seq<u8>)>) -> (w: Seq<(u128, int, Seq<u8>)>)
    requires
        forall|i: int, j: int| 0 <= i < j < s.len() ==> (#[trigger] s[i]).1 != (#[trigger] s[j]).1,
    ensures
        w.to_multiset() == s.to_multiset(),
        strictly_keyed(w),
    decreases s.len(),
{
    broadcast use vstd::seq_lib::group_to_multiset_ensures;

    if s.len() == 0 {
        s
    } else {
        let init = s.drop_last();
        let e = s.last();
        assert forall|i: int, j: int| 0 <= i < j < init.len() implies (#[trigger] init[i]).1 != (
        #[trigger] init[j]).1 by {
            assert(init[i] == s[i] && init[j] == s[j]);
        }
        let v = sorted_keyed(init);
        assert forall|q: int| 0 <= q < v.len() implies (#[trigger] v[q]).1 != e.1 by {
            vstd::seq_lib::to_multiset_contains(v, v[q]);
            vstd::seq_lib::to_multiset_contains(init, v[q]);
            assert(v.contains(v[q]));
            let k = choose|k: int| 0 <= k < init.len() && init[k] == v[q];
            assert(s[k] == init[k]);
            assert(s[s.len() - 1] == e);
        }
        let p = choose_insert_position(v, e);
        let w = v.insert(p, e);
        vstd::seq_lib::to_multiset_insert(v, p, e);
        assert(s =~= init.push(e));
        assert forall|x: int, y: int| 0 <= x < y < w.len() implies key_lt(#[trigger] w[x], #[trigger] w[y]) by {
            if y < p {
                assert(w[x] == v[x] && w[y] == v[y]);
            } else if y == p {
                assert(w[x] == v[x]);
            } else if x == p {
                assert(w[y] == v[y - 1]);
            } else if x < p {
                assert(w[x] == v[x] && w[y] == v[y - 1]);
            } else {
                assert(w[x] == v[x - 1] && w[y] == v[y - 1]);
            }
        }
        w
    }
}

/// Where `e` goes in a strictly keyed sequence: after every smaller key,
/// before every larger one.
proof fn choose_insert_position(v: Seq<(u128, int, Seq<u8>)>, e: (u128, int, Seq<u8>)) -> (p: int)
    requires
        strictly_keyed(v),
        forall|q: int| 0 <= q < v.len() ==> (#[trigger] v[q]).1 != e.1,
    ensures
        0 <= p <= v.len(),
        forall|q: int| 0 <= q < p ==> key_lt(#[trigger] v[q], e),
        forall|q: int| p <= q < v.len() ==> key_lt(e, #[trigger] v[q]),
    decreases v.len(),
{
    if v.len() == 0 {
        0
    } else if key_lt(e, v[0]) {
        assert forall|q: int| 0 <= q < v.len() implies key_lt(e, #[trigger] v[q]) by {
            if q > 0 {
                assert(key_lt(v[0], v[q]));
            }
        }
        0
    } else {
        let rest = v.drop_first();
        assert forall|x: int, y: int| 0 <= x < y < rest.len() implies key_lt(#[trigger] rest[x], #[trigger] rest[y]) by {
            assert(key_lt(v[x + 1], v[y + 1]));
        }
        assert forall|q: int| 0 <= q < rest.len() implies (#[trigger] rest[q]).1 != e.1 by {
            assert(rest[q] == v[q + 1]);
        }
        let p = choose_insert_position(rest, e);
        assert forall|q: int| 0 <= q < p + 1 implies key_lt(#[trigger] v[q], e) by {
            if q > 0 {
                assert(v[q] == rest[q - 1]);
            }
        }
        assert forall|q: int| p + 1 <= q < v.len() implies key_lt(e, #[trigger] v[q]) by {
            assert(v[q] == rest[q - 1]);
        }
        p + 1
    }
}

/// Each ordered digest keeps only the mapping's identifier and digest.
pub open spec fn id_digest_pairs(s: Seq<(u128, int, Seq<u8>)>) -> Seq<(u128, Seq<u8>)> {
    s.map_values(|e: (u128, int, Seq<u8>)| (e.0, e.2))
}

pub open spec fn strictly_by_id(p: Seq<(u128, Seq<u8>)>) -> bool {
    forall|i: int, j: int| 0 <= i < j < p.len() ==> (#[trigger] p[i]).0 < (#[trigger] p[j]).0
}

/// With distinct identifiers, the ordered digests are ordered by identifier
/// alone.
proof fn lemma_ordered_by_id(ms: Seq<AuthorizationPrincipalMappingWrite>, s: Seq<(u128, int, Seq<u8>)>)
    requires
        mapping_ids_distinct(ms),
        s.to_multiset() == keyed_mappings(ms).to_multiset(),
        strictly_keyed(s),
    ensures
        strictly_by_id(id_digest_pairs(s)),
{
    let k = keyed_mappings(ms);
    let p = id_digest_pairs(s);
    assert forall|i: int, j: int| 0 <= i < j < p.len() implies (#[trigger] p[i]).0 < (#[trigger] p[j]).0 by {
        assert(key_lt(s[i], s[j]));
        if s[i].0 == s[j].0 {
            assert(s.contains(s[i]));
            assert(s.contains(s[j]));
            vstd::seq_lib::to_multiset_contains(s, s[i]);
            vstd::seq_lib::to_multiset_contains(s, s[j]);
            vstd::seq_lib::to_multiset_contains(k, s[i]);
            vstd::seq_lib::to_multiset_contains(k, s[j]);
            let x = choose|x: int| 0 <= x < k.len() && k[x] == s[i];
            let y = choose|y: int| 0 <= y < k.len() && k[y] == s[j];
            if x < y {
                assert(ms[x].mapping_id != ms[y].mapping_id);
            } else if y < x {
                assert(ms[y].mapping_id != ms[x].mapping_id);
            }
        }
    }
}

/// An identifier and digest ordered for one write is ordered for any
/// permutation of its mappings.
proof fn lemma_pair_carried(
    ma: Seq<AuthorizationPrincipalMappingWrite>,
    mb: Seq<AuthorizationPrincipalMappingWrite>,
    sa: Seq<(u128, int, Seq<u8>)>,
    sb: Seq<(u128, int, Seq<u8>)>,
    e: (u128, Seq<u8>),
)
    requires
        ma.to_multiset() == mb.to_multiset(),
        sa.to_multiset() == keyed_mappings(ma).to_multiset(),
        sb.to_multiset() == keyed_mappings(mb).to_multiset(),
        id_digest_pairs(sa).contains(e),
    ensures
        id_digest_pairs(sb).contains(e),
{
    let ka = keyed_mappings(ma);
    let kb = keyed_mappings(mb);
    let pa = id_digest_pairs(sa);
    let q = choose|q: int| 0 <= q < pa.len() && pa[q] == e;
    assert(sa.contains(sa[q]));
    vstd::seq_lib::to_multiset_contains(sa, sa[q]);
    vstd::seq_lib::to_multiset_contains(ka, sa[q]);
    let i = choose|i: int| 0 <= i < ka.len() && ka[i] == sa[q];
    let m = ma[i];
    assert(ma.contains(m));
    vstd::seq_lib::to_multiset_contains(ma, m);
    vstd::seq_lib::to_multiset_contains(mb, m);
    let j = choose|j: int| 0 <= j < mb.len() && mb[j] == m;
    let f = kb[j];
    assert(kb.contains(f));
    vstd::seq_lib::to_multiset_contains(kb, f);
    vstd::seq_lib::to_multiset_contains(sb, f);
    let r = choose|r: int| 0 <= r < sb.len() && sb[r] == f;
    assert(id_digest_pairs(sb)[r] == e);
}

proof fn lemma_pairs_unique(x: Seq<(u128, Seq<u8>)>, y: Seq<(u128, Seq<u8>)>)
    requires
        strictly_by_id(x),
        strictly_by_id(y),
        forall|e: (u128, Seq<u8>)| x.contains(e) <==> y.contains(e),
    ensures
        x == y,
    decreases x.len(),
{
    if x.len() == 0 {
        if y.len() > 0 {
            assert(y.contains(y[0]));
        }
        assert(x =~= y);
    } else {
        assert(x.contains(x[0]));
        assert(y.len() > 0);
        assert(y.contains(y[0]));
        let j = choose|j: int| 0 <= j < y.len() && y[j] == x[0];
        let i = choose|i: int| 0 <= i < x.len() && x[i] == y[0];
        if j > 0 {
            assert(y[0].0 < y[j].0);
        }
        if i > 0 {
            assert(x[0].0 < x[i].0);
        }
        assert(x[0] == y[0]);
        let xt = x.drop_first();
        let yt = y.drop_first();
        assert forall|a: int, b: int| 0 <= a < b < xt.len() implies (#[trigger] xt[a]).0 < (#[trigger] xt[b]).0 by {
            assert(x[a + 1].0 < x[b + 1].0);
        }
        assert forall|a: int, b: int| 0 <= a < b < yt.len() implies (#[trigger] yt[a]).0 < (#[trigger] yt[b]).0 by {
            assert(y[a + 1].0 < y[b + 1].0);
        }
        assert forall|e: (u128, Seq<u8>)| xt.contains(e) <==> yt.contains(e) by {
            if xt.contains(e) {
                let k = choose|k: int| 0 <= k < xt.len() && xt[k] == e;
                assert(x[k + 1] == e);
                assert(x[0].0 < x[k + 1].0);
                assert(x.contains(e));
                let m = choose|m: int| 0 <= m < y.len() && y[m] == e;
                assert(m != 0);
                assert(yt[m - 1] == e);
            }
            if yt.contains(e) {
                let k = choose|k: int| 0 <= k < yt.len() && yt[k] == e;
                assert(y[k + 1] == e);
                assert(y[0].0 < y[k + 1].0);
                assert(y.contains(e));
                let m = choose|m: int| 0 <= m < x.len() && x[m] == e;
                assert(m != 0);
                assert(xt[m - 1] == e);
            }
        }
        lemma_pairs_unique(xt, yt);
        assert(x =~= seq![x[0]] + xt);
        assert(y =~= seq![y[0]] + yt);
    }
}

proof fn lemma_section_eq(sa: Seq<(u128, int, Seq<u8>)>, sb: Seq<(u128, int, Seq<u8>)>)
    requires
        sa.len() == sb.len(),
        forall|k: int| 0 <= k < sa.len() ==> (#[trigger] sa[k]).2 == sb[k].2,
    ensures
        digest_section(sa) == digest_section(sb),
    decreases sa.len(),
{
    if sa.len() > 0 {
        let ia = sa.drop_last();
        let ib = sb.drop_last();
        assert forall|k: int| 0 <= k < ia.len() implies (#[trigger] ia[k]).2 == ib[k].2 by {
            assert(ia[k] == sa[k] && ib[k] == sb[k]);
        }
        lemma_section_eq(ia, ib);
        assert(sa.last().2 == sb.last().2);
    }
}

proof fn lemma_no_decision_rejected(m: AuthorizationPrincipalMappingWrite, ds: Seq<(Action, GrantDecision)>)
    requires
        first_decision_rejection(m, ds) is None,
    ensures
        forall|i: int| 0 <= i < ds.len() ==> decision_rejection(m, (#[trigger] ds[i]).0, ds[i].1) is None,
    decreases ds.len(),
{
    if ds.len() > 0 {
        lemma_no_decision_rejected(m, ds.drop_last());
        assert forall|i: int| 0 <= i < ds.len() implies decision_rejection(m, (#[trigger] ds[i]).0, ds[i].1) is None by {
            if i < ds.len() - 1 {
                assert(ds[i] == ds.drop_last()[i]);
            }
        }
    }
}

/// An accepted mapping never grants anything the source ACL entry did not:
/// every allow decision comes from an active source principal whose
/// permissions cover the action, or who administers Jenkins overall.
pub proof fn law_accepted_mapping_never_broadens_source_acl(m: AuthorizationPrincipalMappingWrite)
    requires
        mapping_rejection(m) is None,
    ensures
        forall|i: int|
            0 <= i < m.decisions@.len() && (#[trigger] m.decisions@[i]).1 == GrantDecision::Allow ==> m.source_lifecycle_state@
                == "active"@ && (source_is_admin(m.source_permissions@) || grants_source_action(
                m.source_permissions@,
                m.decisions@[i].0,
            )),
{
    lemma_no_decision_rejected(m, m.decisions@);
}

/// An accepted mapping never decides on scheduler control.
pub proof fn law_accepted_mapping_never_decides_scheduler_control(m: AuthorizationPrincipalMappingWrite)
    requires
        mapping_rejection(m) is None,
    ensures
        forall|i: int| 0 <= i < m.decisions@.len() ==> (#[trigger] m.decisions@[i]).0 != Action::SchedulerControl,
{
    lemma_no_decision_rejected(m, m.decisions@);
}

/// An accepted policy has no two mappings with one identifier.
pub proof fn law_accepted_policy_has_distinct_mapping_ids(input: AuthorizationPolicyWrite)
    requires
        policy_rejection(input) is None,
    ensures
        mapping_ids_distinct(input.mappings@),
{
    lemma_no_mapping_rejected(input.mappings@);
}

#[verifier::spinoff_prover]
proof fn lemma_no_mapping_rejected(ms: Seq<AuthorizationPrincipalMappingWrite>)
    requires
        first_mapping_rejection(ms) is None,
    ensures
        mapping_ids_distinct(ms),
        forall|i: int| 0 <= i < ms.len() ==> mapping_rejection(#[trigger] ms[i]) is None,
    decreases ms.len(),
{
    if ms.len() > 0 {
        let init = ms.drop_last();
        lemma_no_mapping_rejected(init);
        assert(!repeats_mapping_id(ms, ms.len() - 1));
        assert forall|i: int, j: int| 0 <= i < j < ms.len() implies (#[trigger] ms[i]).mapping_id != (
        #[trigger] ms[j]).mapping_id by {
            if j < ms.len() - 1 {
                assert(ms[i] == init[i] && ms[j] == init[j]);
            }
        }
        assert forall|i: int| 0 <= i < ms.len() implies mapping_rejection(#[trigger] ms[i]) is None by {
            if i < ms.len() - 1 {
                assert(ms[i] == init[i]);
            }
        }
    }
}

/// What the store holds for a project's policy decides the next step:
/// `Some(g)` when the write restores generation `g`, which must then be
/// found retained.
pub open spec fn install_conflict(input: AuthorizationPolicyWrite, current_generation: Option<i64>) -> bool {
    current_generation != input.expected_current_generation
}

pub open spec fn install_rejection(input: AuthorizationPolicyWrite, current_generation: Option<i64>) -> Option<Seq<char>> {
    let base: int = match current_generation {
        Some(g) => g as int,
        None => 0,
    };
    if base + 1 > i64::MAX {
        Some("authorization policy generation overflow"@)
    } else if input.generation != base + 1 {
        Some("authorization policy generation must advance by exactly one"@)
    } else if input.restored_from_generation matches Some(r) && r >= input.generation {
        Some("authorization rollback source generation is not retained"@)
    } else {
        None
    }
}

/// Decides whether a checked policy write may become the next generation;
/// on success, the generation it restores, whose retention the caller must
/// still confirm.
pub fn plan_authorization_install(input: &AuthorizationPolicyWrite, current_generation: Option<i64>) -> (r: Result<Option<i64>, StoreError>)
    ensures
        install_conflict(*input, current_generation) ==> (r matches Err(e) && e is AuthorizationConflict),
        !install_conflict(*input, current_generation) ==> match r {
            Ok(restored) => install_rejection(*input, current_generation) is None && restored
                == input.restored_from_generation,
            Err(StoreError::InvalidAuthorizationOperation(m)) => install_rejection(*input, current_generation)
                == Some(m@),
            Err(_) => false,
        },
{
    if current_generation != input.expected_current_generation {
        return Err(StoreError::AuthorizationConflict("authorization policy current generation changed".to_owned()));
    }
    let base: i64 = match current_generation {
        Some(g) => g,
        None => 0,
    };
    let required = match base.checked_add(1) {
        Some(g) => g,
        None => {
            return Err(
                StoreError::InvalidAuthorizationOperation("authorization policy generation overflow".to_owned()),
            );
        },
    };
    if input.generation != required {
        return Err(
            StoreError::InvalidAuthorizationOperation(
                "authorization policy generation must advance by exactly one".to_owned(),
            ),
        );
    }
    if let Some(restored) = input.restored_from_generation {
        if restored >= input.generation {
            return Err(
                StoreError::InvalidAuthorizationOperation(
                    "authorization rollback source generation is not retained".to_owned(),
                ),
            );
        }
    }
    Ok(input.restored_from_generation)
}

/// Refuses a restore whose source generation the store no longer holds.
pub fn confirm_rollback_source(retained: bool) -> (r: Result<(), StoreError>)
    ensures
        refused_with(
            r,
            if retained {
                None
            } else {
                Some("authorization rollback source generation is not retained"@)
            },
        ),
{
    if !retained {
        return invalid("authorization rollback source generation is not retained");
    }
    Ok(())
}

/// The checks on a policy write before the store is touched; on success
/// the policy digest it is stored under.
pub fn check_authorization_policy_write(input: &AuthorizationPolicyWrite) -> (r: Result<[u8; 32], StoreError>)
    ensures
        r matches Ok(d) ==> policy_rejection(*input) is None && d@ == policy_digest(*input)
            && input.expected_policy_digest@ == policy_digest(*input),
        r is Err <==> (policy_rejection(*input) is Some || input.expected_policy_digest@ != policy_digest(*input)),
        r matches Err(e) ==> e matches StoreError::InvalidAuthorizationOperation(m) && (if policy_rejection(*input) is Some {
            policy_rejection(*input) == Some(m@)
        } else {
            m@ == "authorization policy digest does not match its canonical content"@
        }),
{
    if let Err(e) = validate_policy(input) {
        return Err(e);
    }
    let digest = match compute_authorization_policy_digest(input) {
        Ok(d) => d,
        Err(e) => return Err(e),
    };
    if !digest_eq(&digest, &input.expected_policy_digest) {
        return Err(
            StoreError::InvalidAuthorizationOperation(
                "authorization policy digest does not match its canonical content".to_owned(),
            ),
        );
    }
    Ok(digest)
}

/// Number of action decisions a policy installs across its mappings.
pub open spec fn grant_total(ms: Seq<AuthorizationPrincipalMappingWrite>) -> int
    decreases ms.len(),
{
    if ms.len() == 0 {
        0
    } else {
        grant_total(ms.drop_last()) + ms.last().decisions@.len()
    }
}

pub fn grant_count(input: &AuthorizationPolicyWrite) -> (n: Option<usize>)
    ensures
        grant_total(input.mappings@) <= usize::MAX ==> n == Some(grant_total(input.mappings@) as usize),
        grant_total(input.mappings@) > usize::MAX ==> n is None,
{
    let ms = &input.mappings;
    let mut total: usize = 0;
    let mut i: usize = 0;
    assert(ms@.take(0) =~= Seq::<AuthorizationPrincipalMappingWrite>::empty());
    while i < ms.len()
        invariant
            i <= ms@.len(),
            ms@ == input.mappings@,
            total == grant_total(ms@.take(i as int)),
        decreases ms@.len() - i,
    {
        proof {
            assert(ms@.take(i + 1).drop_last() =~= ms@.take(i as int));
            assert(ms@.take(i + 1).last() == ms@[i as int]);
            lemma_grant_total_monotone(ms@, i + 1);
        }
        match total.checked_add(ms[i].decisions.len()) {
            Some(t) => total = t,
            None => return None,
        }
        i = i + 1;
    }
    assert(ms@.take(ms@.len() as int) =~= ms@);
    Some(total)
}

proof fn lemma_grant_total_monotone(ms: Seq<AuthorizationPrincipalMappingWrite>, n: int)
    requires
        0 <= n <= ms.len(),
    ensures
        grant_total(ms.take(n)) <= grant_total(ms),
    decreases ms.len() - n,
{
    if n < ms.len() {
        assert(ms.take(n + 1).drop_last() =~= ms.take(n));
        lemma_grant_total_monotone(ms, n + 1);
    } else {
        assert(ms.take(n) =~= ms);
    }
}

/// The audit action recorded for an installed policy generation.
pub fn policy_audit_action(input: &AuthorizationPolicyWrite) -> (s: &'static str)
    ensures
        s@ == (if input.restored_from_generation is Some {
            "policy_rolled_back"@
        } else {
            "policy_installed"@
        }),
{
    if input.restored_from_generation.is_some() {
        "policy_rolled_back"
    } else {
        "policy_installed"
    }
}

/// What the store holds about a mapping's target identity.
#[derive(Clone, Debug, PartialEq, Eq)]
pub struct TargetIdentityRecord {
    pub kind: String,
    pub lifecycle_state: String,
    pub lifecycle_generation: i64,
    pub provider_id: Option<u128>,
    pub external_subject: Option<String>,
    pub group_generation: i64,
    pub source_realm_digest: Option<Vec<u8>>,
    pub source_identity_id: Option<String>,
    pub source_membership_generation: Option<i64>,
    /// The compact JSON encoding of the stored alias history.
    pub alias_history: Vec<u8>,
    pub provenance_digest: Option<Vec<u8>>,
}

pub open spec fn opt_text_eq(a: Option<String>, b: Option<String>) -> bool {
    match (a, b) {
        (Some(x), Some(y)) => x@ == y@,
        (None, None) => true,
        _ => false,
    }
}

pub open spec fn opt_bytes_are(a: Option<Vec<u8>>, b: Seq<u8>) -> bool {
    a matches Some(x) && x@ == b
}

/// Why a mapping's target identity, as stored, does not match the mapping.
pub open spec fn target_identity_rejection(
    policy: AuthorizationPolicyWrite,
    m: AuthorizationPrincipalMappingWrite,
    row: TargetIdentityRecord,
) -> Option<Seq<char>> {
    if row.lifecycle_state@ != "active"@ || row.lifecycle_generation != m.target_lifecycle_generation
        || row.group_generation != m.target_group_generation || row.provider_id != m.target_provider_id
        || !opt_text_eq(row.external_subject, m.target_external_subject) {
        Some("authorization target identity lifecycle binding is stale"@)
    } else if row.kind@ == "human"@ {
        if !opt_bytes_are(row.source_realm_digest, policy.source_realm_digest@) || !(row.source_identity_id matches Some(
            s,
        ) && s@ == m.source_identity_id@) || row.source_membership_generation != Some(m.source_membership_generation)
            || row.alias_history@ != m.source_alias_history@ || !opt_bytes_are(
            row.provenance_digest,
            m.target_provenance_digest@,
        ) {
            Some("authorization human identity provenance does not match IDP truth"@)
        } else {
            None
        }
    } else if row.kind@ != "service"@ {
        Some("authorization target identity kind is unknown"@)
    } else {
        None
    }
}

pub(crate) fn bytes_eq(a: &[u8], b: &[u8]) -> (r: bool)
    ensures
        r == (a@ == b@),
{
    if a.len() != b.len() {
        return false;
    }
    let mut i: usize = 0;
    while i < a.len()
        invariant
            i <= a@.len(),
            a@.len() == b@.len(),
            forall|j: int| 0 <= j < i ==> a@[j] == b@[j],
        decreases a@.len() - i,
    {
        if a[i] != b[i] {
            return false;
        }
        i = i + 1;
    }
    assert(a@ =~= b@);
    true
}

fn opt_bytes_match(a: &Option<Vec<u8>>, b: &[u8]) -> (r: bool)
    ensures
        r == opt_bytes_are(*a, b@),
{
    match a {
        Some(x) => bytes_eq(x.as_slice(), b),
        None => false,
    }
}

/// Checks that a mapping's target identity is the active identity the
/// mapping was reviewed against, and, for a human, that its provenance is
/// the identity provider's.
pub fn check_target_identity(
    policy: &AuthorizationPolicyWrite,
    mapping: &AuthorizationPrincipalMappingWrite,
    row: &TargetIdentityRecord,
) -> (r: Result<(), StoreError>)
    ensures
        refused_with(r, target_identity_rejection(*policy, *mapping, *row)),
{
    let subject_matches = match (&row.external_subject, &mapping.target_external_subject) {
        (Some(x), Some(y)) => str_eq(x.as_str(), y.as_str()),
        (None, None) => true,
        _ => false,
    };
    if !str_eq(row.lifecycle_state.as_str(), "active") || row.lifecycle_generation != mapping.target_lifecycle_generation
        || row.group_generation != mapping.target_group_generation || row.provider_id != mapping.target_provider_id
        || !subject_matches {
        return invalid("authorization target identity lifecycle binding is stale");
    }
    if str_eq(row.kind.as_str(), "human") {
        let source_id_matches = match &row.source_identity_id {
            Some(s) => str_eq(s.as_str(), mapping.source_identity_id.as_str()),
            None => false,
        };
        if !opt_bytes_match(&row.source_realm_digest, &policy.source_realm_digest) || !source_id_matches
            || row.source_membership_generation != Some(mapping.source_membership_generation) || !bytes_eq(
            row.alias_history.as_slice(),
            mapping.source_alias_history.as_slice(),
        ) || !opt_bytes_match(&row.provenance_digest, &mapping.target_provenance_digest) {
            return invalid("authorization human identity provenance does not match IDP truth");
        }
    } else if !str_eq(row.kind.as_str(), "service") {
        return invalid("authorization target identity kind is unknown");
    }
    Ok(())
}

} // verus!
