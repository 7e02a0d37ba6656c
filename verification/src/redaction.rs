//! Credential redaction of attempt logs.
//!
//! Bytes are appended one at a time; after each byte, while the output ends
//! with a non-empty secret, the longest such secret is cut off. The result is
//! a fixed point: no secret occurs anywhere in it, and redacting it again
//! changes nothing.
use vstd::prelude::*;

use crate::text::concat_str;
use crate::StoreError;

verus! {

/// Whether the pattern set can be compiled into a leftmost-longest
/// Aho-Corasick automaton by the `aho_corasick` crate.
pub uninterp spec fn aho_corasick_builds(patterns: Seq<Seq<u8>>) -> bool;

/// Builds a leftmost-longest `aho_corasick::AhoCorasick` automaton over the
/// patterns with `AhoCorasickBuilder::build` and reports whether it could be
/// built; on failure, the crate's error text. Which pattern sets exceed the
/// crate's state and pattern limits is left to the name.
#[verifier::external_body]
fn build_redaction_automaton(patterns: &[Vec<u8>]) -> (r: Result<(), String>)
    ensures
        r.is_ok() == aho_corasick_builds(patterns.deep_view()),
{
    match aho_corasick::AhoCorasickBuilder::new()
        .match_kind(aho_corasick::MatchKind::LeftmostLongest)
        .build(patterns)
    {
        Ok(_) => Ok(()),
        Err(error) => Err(error.to_string()),
    }
}

/// `secret` is non-empty and `out` ends with it.
pub open spec fn is_secret_suffix(secret: Seq<u8>, out: Seq<u8>) -> bool {
    &&& secret.len() > 0
    &&& secret.len() <= out.len()
    &&& out.subrange(out.len() - secret.len(), out.len() as int) == secret
}

/// Length of the longest secret that `out` ends with, 0 when there is none.
pub open spec fn longest_secret_suffix(out: Seq<u8>, secrets: Seq<Seq<u8>>) -> nat
    decreases secrets.len(),
{
    if secrets.len() == 0 {
        0
    } else {
        let rest = longest_secret_suffix(out, secrets.drop_last());
        let s = secrets.last();
        if is_secret_suffix(s, out) && s.len() > rest {
            s.len()
        } else {
            rest
        }
    }
}

/// Cut the longest secret suffix off `out` for as long as there is one.
pub open spec fn strip_secrets(out: Seq<u8>, secrets: Seq<Seq<u8>>) -> Seq<u8>
    decreases out.len(),
{
    let n = longest_secret_suffix(out, secrets);
    if 0 < n && n <= out.len() {
        strip_secrets(out.take(out.len() - n), secrets)
    } else {
        out
    }
}

/// The redaction of `content`: each byte is appended and the output is then
/// stripped of secret suffixes.
pub open spec fn redacted(content: Seq<u8>, secrets: Seq<Seq<u8>>) -> Seq<u8>
    decreases content.len(),
{
    if content.len() == 0 {
        Seq::empty()
    } else {
        strip_secrets(redacted(content.drop_last(), secrets).push(content.last()), secrets)
    }
}

/// `s` occurs in `x` as a contiguous run of bytes.
pub open spec fn occurs_in(s: Seq<u8>, x: Seq<u8>) -> bool {
    exists|k: int| 0 <= k && k + s.len() <= x.len() && #[trigger] x.subrange(k, k + s.len()) == s
}

/// No non-empty secret occurs anywhere in `x`.
pub open spec fn free_of_secrets(x: Seq<u8>, secrets: Seq<Seq<u8>>) -> bool {
    forall|i: int| 0 <= i < secrets.len() && (#[trigger] secrets[i]).len() > 0 ==> !occurs_in(secrets[i], x)
}

proof fn lemma_longest_secret_suffix(out: Seq<u8>, secrets: Seq<Seq<u8>>)
    ensures
        longest_secret_suffix(out, secrets) == 0 <==> (forall|i: int|
            0 <= i < secrets.len() ==> !is_secret_suffix(#[trigger] secrets[i], out)),
        longest_secret_suffix(out, secrets) > 0 ==> exists|i: int|
            0 <= i < secrets.len() && is_secret_suffix(#[trigger] secrets[i], out)
                && secrets[i].len() == longest_secret_suffix(out, secrets),
    decreases secrets.len(),
{
    if secrets.len() > 0 {
        let init = secrets.drop_last();
        lemma_longest_secret_suffix(out, init);
        assert forall|i: int| 0 <= i < init.len() implies init[i] == secrets[i] by {}
        if longest_secret_suffix(out, secrets) > 0 {
            if is_secret_suffix(secrets.last(), out) && secrets.last().len() > longest_secret_suffix(out, init) {
                assert(secrets[secrets.len() - 1] == secrets.last());
            } else {
                let i = choose|i: int|
                    0 <= i < init.len() && is_secret_suffix(#[trigger] init[i], out)
                        && init[i].len() == longest_secret_suffix(out, init);
                assert(secrets[i] == init[i]);
            }
        }
        if longest_secret_suffix(out, secrets) == 0 {
            assert forall|i: int| 0 <= i < secrets.len() implies !is_secret_suffix(#[trigger] secrets[i], out) by {
                if i < init.len() {
                    assert(init[i] == secrets[i]);
                } else {
                    assert(secrets[i] == secrets.last());
                }
            }
        } else {
            let i = choose|i: int|
                0 <= i < secrets.len() && is_secret_suffix(#[trigger] secrets[i], out)
                    && secrets[i].len() == longest_secret_suffix(out, secrets);
            assert(is_secret_suffix(secrets[i], out));
        }
    }
}

proof fn lemma_free_prefix(x: Seq<u8>, m: int, secrets: Seq<Seq<u8>>)
    requires
        free_of_secrets(x, secrets),
        0 <= m <= x.len(),
    ensures
        free_of_secrets(x.take(m), secrets),
{
    let p = x.take(m);
    assert forall|i: int| 0 <= i < secrets.len() && (#[trigger] secrets[i]).len() > 0 implies !occurs_in(secrets[i], p) by {
        if occurs_in(secrets[i], p) {
            let s = secrets[i];
            let k = choose|k: int| 0 <= k && k + s.len() <= p.len() && #[trigger] p.subrange(k, k + s.len()) == s;
            assert(x.subrange(k, k + s.len()) =~= p.subrange(k, k + s.len()));
            assert(occurs_in(s, x));
        }
    }
}

proof fn lemma_free_has_no_suffix(x: Seq<u8>, secrets: Seq<Seq<u8>>)
    requires
        free_of_secrets(x, secrets),
    ensures
        longest_secret_suffix(x, secrets) == 0,
        strip_secrets(x, secrets) == x,
{
    lemma_longest_secret_suffix(x, secrets);
    if longest_secret_suffix(x, secrets) > 0 {
        let i = choose|i: int|
            0 <= i < secrets.len() && is_secret_suffix(#[trigger] secrets[i], x)
                && secrets[i].len() == longest_secret_suffix(x, secrets);
        let s = secrets[i];
        assert(x.subrange(x.len() - s.len(), x.len() - s.len() + s.len()) == s);
        assert(occurs_in(s, x));
    }
}

/// Appending one byte to a secret-free output and stripping it gives a
/// secret-free output again.
proof fn lemma_step_keeps_free(x: Seq<u8>, b: u8, secrets: Seq<Seq<u8>>)
    requires
        free_of_secrets(x, secrets),
    ensures
        free_of_secrets(strip_secrets(x.push(b), secrets), secrets),
{
    let y = x.push(b);
    lemma_longest_secret_suffix(y, secrets);
    let n = longest_secret_suffix(y, secrets);
    if n > 0 {
        let i = choose|i: int|
            0 <= i < secrets.len() && is_secret_suffix(#[trigger] secrets[i], y)
                && secrets[i].len() == n;
        assert(n <= y.len());
        let z = y.take(y.len() - n);
        assert(z =~= x.take(x.len() + 1 - n));
        lemma_free_prefix(x, x.len() + 1 - n, secrets);
        lemma_free_has_no_suffix(z, secrets);
        assert(strip_secrets(y, secrets) == strip_secrets(z, secrets));
    } else {
        assert forall|i: int| 0 <= i < secrets.len() && (#[trigger] secrets[i]).len() > 0 implies !occurs_in(secrets[i], y) by {
            let s = secrets[i];
            if occurs_in(s, y) {
                let k = choose|k: int| 0 <= k && k + s.len() <= y.len() && #[trigger] y.subrange(k, k + s.len()) == s;
                if k + s.len() == y.len() {
                    assert(is_secret_suffix(s, y));
                } else {
                    assert(x.subrange(k, k + s.len()) =~= y.subrange(k, k + s.len()));
                    assert(occurs_in(s, x));
                }
            }
        }
        assert(strip_secrets(y, secrets) == y);
    }
}

/// No non-empty secret occurs anywhere in a redacted log.
pub proof fn law_redacted_output_is_free_of_secrets(content: Seq<u8>, secrets: Seq<Seq<u8>>)
    ensures
        free_of_secrets(redacted(content, secrets), secrets),
    decreases content.len(),
{
    if content.len() == 0 {
        assert forall|i: int| 0 <= i < secrets.len() && (#[trigger] secrets[i]).len() > 0 implies !occurs_in(
            secrets[i],
            redacted(content, secrets),
        ) by {}
    } else {
        law_redacted_output_is_free_of_secrets(content.drop_last(), secrets);
        lemma_step_keeps_free(redacted(content.drop_last(), secrets), content.last(), secrets);
    }
}

/// A log in which no secret occurs is left exactly as it is.
pub proof fn law_secret_free_content_is_unchanged(content: Seq<u8>, secrets: Seq<Seq<u8>>)
    requires
        free_of_secrets(content, secrets),
    ensures
        redacted(content, secrets) == content,
    decreases content.len(),
{
    if content.len() > 0 {
        let init = content.drop_last();
        assert(init =~= content.take(content.len() - 1));
        lemma_free_prefix(content, content.len() - 1, secrets);
        law_secret_free_content_is_unchanged(init, secrets);
        assert(init.push(content.last()) =~= content);
        lemma_free_has_no_suffix(content, secrets);
    }
}

/// Redaction reaches a fixed point: redacting a redacted log changes nothing.
pub proof fn law_redaction_is_idempotent(content: Seq<u8>, secrets: Seq<Seq<u8>>)
    ensures
        redacted(redacted(content, secrets), secrets) == redacted(content, secrets),
{
    law_redacted_output_is_free_of_secrets(content, secrets);
    law_secret_free_content_is_unchanged(redacted(content, secrets), secrets);
}

/// Whether `out` ends with the non-empty `secret`.
fn ends_with_secret(out: &Vec<u8>, secret: &Vec<u8>) -> (r: bool)
    ensures
        r == is_secret_suffix(secret@, out@),
{
    let n = secret.len();
    if n == 0 || n > out.len() {
        return false;
    }
    let base = out.len() - n;
    let mut j: usize = 0;
    while j < n
        invariant
            n == secret@.len(),
            0 < n <= out@.len(),
            base == out@.len() - n,
            base + n == out.len(),
            j <= n,
            forall|t: int| 0 <= t < j ==> out@[base + t] == secret@[t],
        decreases n - j,
    {
        if out[base + j] != secret[j] {
            assert(out@.subrange(base as int, out@.len() as int)[j as int] != secret@[j as int]);
            return false;
        }
        j = j + 1;
    }
    assert(out@.subrange(base as int, out@.len() as int) =~= secret@);
    true
}

/// Length of the longest redaction that `out` ends with, 0 when none.
fn longest_suffix_len(out: &Vec<u8>, redactions: &[Vec<u8>]) -> (n: usize)
    ensures
        n == longest_secret_suffix(out@, redactions.deep_view()),
{
    let ghost secrets = redactions.deep_view();
    let mut best: usize = 0;
    let mut j: usize = 0;
    while j < redactions.len()
        invariant
            j <= redactions@.len(),
            secrets == redactions.deep_view(),
            secrets.len() == redactions@.len(),
            best == longest_secret_suffix(out@, secrets.take(j as int)),
        decreases redactions@.len() - j,
    {
        proof {
            assert(secrets.take(j + 1).drop_last() =~= secrets.take(j as int));
            assert(secrets.take(j + 1).last() == redactions@[j as int]@);
        }
        let secret = &redactions[j];
        if ends_with_secret(out, secret) && secret.len() > best {
            best = secret.len();
        }
        j = j + 1;
    }
    assert(secrets.take(redactions@.len() as int) =~= secrets);
    best
}

/// Redact every non-empty credential in `redactions` from `content`.
///
/// The redaction set must compile into a leftmost-longest Aho-Corasick
/// automaton; when it does not, the set is refused as an invalid security
/// operation. An empty set is never compiled and always accepted.
pub fn redact_to_fixed_point(content: &[u8], redactions: &[Vec<u8>]) -> (r: Result<Vec<u8>, StoreError>)
    ensures
        r.is_err() <==> (redactions@.len() > 0 && !aho_corasick_builds(redactions.deep_view())),
        r matches Err(e) ==> e is InvalidSecurityOperation,
        r matches Err(e) ==> e matches StoreError::InvalidSecurityOperation(m) && "credential redaction set is invalid: "@
            .is_prefix_of(m@),
        r matches Ok(out) ==> out@ == redacted(content@, redactions.deep_view()),
{
    if redactions.len() > 0 {
        match build_redaction_automaton(redactions) {
            Ok(()) => {},
            Err(detail) => {
                let message = concat_str("credential redaction set is invalid: ", detail.as_str());
                assert("credential redaction set is invalid: "@.is_prefix_of(message@)) by {
                    assert(message@.subrange(0, "credential redaction set is invalid: "@.len() as int)
                        =~= "credential redaction set is invalid: "@);
                }
                return Err(StoreError::InvalidSecurityOperation(message));
            },
        }
    }
    let ghost secrets = redactions.deep_view();
    let mut output: Vec<u8> = Vec::new();
    let mut i: usize = 0;
    while i < content.len()
        invariant
            i <= content@.len(),
            secrets == redactions.deep_view(),
            output@ == redacted(content@.take(i as int), secrets),
        decreases content@.len() - i,
    {
        let ghost pushed = output@.push(content@[i as int]);
        proof {
            let t = content@.take(i + 1);
            assert(t.drop_last() =~= content@.take(i as int));
            assert(t.last() == content@[i as int]);
        }
        output.push(content[i]);
        loop
            invariant
                secrets == redactions.deep_view(),
                strip_secrets(output@, secrets) == strip_secrets(pushed, secrets),
            ensures
                output@ == strip_secrets(pushed, secrets),
            decreases output@.len(),
        {
            let n = longest_suffix_len(&output, redactions);
            if n == 0 {
                break;
            }
            proof {
                lemma_longest_secret_suffix(output@, secrets);
            }
            let keep = output.len() - n;
            output.truncate(keep);
        }
        i = i + 1;
    }
    assert(content@.take(content@.len() as int) =~= content@);
    Ok(output)
}

} // verus!
