//! Tenant-scoped, hash-chained audit events: their hash, field bounds, and
//! the verification of whole exports and of resumable pages.
use vstd::prelude::*;
use vstd::utf8::encode_utf8;

use crate::encoding::{
    digest_eq, digest_from_slice, framed, i64_be, id_bytes, push_bytes, push_framed, push_framed_str, push_i64,
    push_id, sha256, sha256_spec, zero_digest,
};
use crate::text::{any_control, byte_len, chars_of, has_control, is_padded, padded, utf8_len};
use crate::StoreError;

verus! {

pub const MAX_AUDIT_PAGE: u32 = 10_000;
pub const MAX_AUDIT_EXPORT: i64 = 100_000;

/// One chained audit event. `payload` holds the compact JSON encoding of the
/// event payload, exactly the bytes that the hash covers.
#[derive(Clone, Debug, PartialEq, Eq)]
pub struct AuditEvent {
    pub sequence: i64,
    pub event_id: u128,
    pub category: String,
    pub actor_subject: String,
    pub action: String,
    pub subject: String,
    pub payload: Vec<u8>,
    pub occurred_at_unix_ms: i64,
    pub previous_hash: [u8; 32],
    pub event_hash: [u8; 32],
}

#[derive(Clone, Copy, Debug, PartialEq, Eq, Structural)]
pub struct AuditRetentionPolicy {
    pub retain_until_unix_ms: i64,
    pub legal_hold: bool,
}

#[derive(Clone, Debug, PartialEq, Eq)]
pub struct AuditExport {
    pub organization_id: u128,
    pub events: Vec<AuditEvent>,
    pub next_sequence: i64,
    pub head_hash: [u8; 32],
    pub retention: Option<AuditRetentionPolicy>,
}

#[derive(Clone, Debug, PartialEq, Eq)]
pub struct AuditPage {
    pub organization_id: u128,
    pub after_sequence: i64,
    pub previous_hash: [u8; 32],
    pub events: Vec<AuditEvent>,
    pub next_after_sequence: Option<i64>,
    pub chain_next_sequence: i64,
    pub chain_head_hash: [u8; 32],
    pub retention: Option<AuditRetentionPolicy>,
}

/// Domain-separation tag that starts every audit hash input.
pub open spec fn audit_tag() -> Seq<u8> {
    encode_utf8("mcloving-audit-v1\u{0}"@)
}

/// The exact bytes hashed for an event of a tenant.
pub open spec fn audit_hash_input(organization_id: u128, e: AuditEvent) -> Seq<u8> {
    audit_tag() + id_bytes(organization_id) + i64_be(e.sequence) + id_bytes(e.event_id) + framed(
        encode_utf8(e.category@),
    ) + framed(encode_utf8(e.actor_subject@)) + framed(encode_utf8(e.action@)) + framed(
        encode_utf8(e.subject@),
    ) + framed(e.payload@) + i64_be(e.occurred_at_unix_ms) + e.previous_hash@
}

pub open spec fn audit_event_hash(organization_id: u128, e: AuditEvent) -> Seq<u8> {
    sha256_spec(audit_hash_input(organization_id, e))
}

/// Scan of a run of events that must continue a chain at `expected` after
/// `prev`: `Ok((next_sequence, head_hash))` when every event links,
/// `Err(Some(sequence))` at the first event that does not, and `Err(None)`
/// when `checked` and the next sequence number would leave `i64`.
pub open spec fn scan_chain(
    organization_id: u128,
    events: Seq<AuditEvent>,
    expected: int,
    prev: Seq<u8>,
    checked: bool,
) -> Result<(int, Seq<u8>), Option<int>>
    decreases events.len(),
{
    if events.len() == 0 {
        Ok((expected, prev))
    } else {
        let e = events[0];
        if e.sequence != expected || e.previous_hash@ != prev || e.event_hash@ != audit_event_hash(
            organization_id,
            e,
        ) {
            Err(Some(e.sequence as int))
        } else if checked && expected + 1 > i64::MAX {
            Err(None)
        } else {
            scan_chain(organization_id, events.drop_first(), expected + 1, e.event_hash@, checked)
        }
    }
}

/// Event `i` continues the chain that starts at sequence `first` after `start`.
pub open spec fn links_at(
    organization_id: u128,
    events: Seq<AuditEvent>,
    first: int,
    start: Seq<u8>,
    i: int,
) -> bool {
    &&& events[i].sequence == first + i
    &&& events[i].previous_hash@ == (if i == 0 {
        start
    } else {
        events[i - 1].event_hash@
    })
    &&& events[i].event_hash@ == audit_event_hash(organization_id, events[i])
}

/// Every event links: consecutive sequences from `first`, each event naming
/// its predecessor's hash (`start` for the first) and carrying its own hash.
pub open spec fn chain_links(
    organization_id: u128,
    events: Seq<AuditEvent>,
    first: int,
    start: Seq<u8>,
) -> bool {
    forall|i: int| 0 <= i < events.len() ==> #[trigger] links_at(organization_id, events, first, start, i)
}

/// The hash that the chain ends on.
pub open spec fn chain_head(events: Seq<AuditEvent>, start: Seq<u8>) -> Seq<u8> {
    if events.len() == 0 {
        start
    } else {
        events[events.len() - 1].event_hash@
    }
}

/// A complete export: a chain from sequence 1 after the zero hash, whose head
/// matches the recorded tenant head.
pub open spec fn export_is_valid(x: AuditExport) -> bool {
    &&& chain_links(x.organization_id, x.events@, 1, zero_digest())
    &&& x.next_sequence == 1 + x.events@.len()
    &&& x.head_hash@ == chain_head(x.events@, zero_digest())
}

/// The sequence that `verify_audit_export` reports, or `None` when it accepts.
pub open spec fn export_failure(x: AuditExport) -> Option<int> {
    match scan_chain(x.organization_id, x.events@, 1, zero_digest(), false) {
        Ok((next, head)) => if x.next_sequence == next && x.head_hash@ == head {
            None
        } else {
            Some(next)
        },
        Err(Some(s)) => Some(s),
        Err(None) => Some(0),
    }
}

/// What `verify_audit_page` answers: `None` when it accepts, `Some(Some(s))`
/// for a corrupt chain reported at sequence `s`, `Some(None)` when a sequence
/// number would leave `i64`.
pub open spec fn page_failure(p: AuditPage) -> Option<Option<int>> {
    if p.after_sequence + 1 > i64::MAX {
        Some(None)
    } else {
        match scan_chain(p.organization_id, p.events@, p.after_sequence + 1, p.previous_hash@, true) {
            Err(Some(s)) => Some(Some(s)),
            Err(None) => Some(None),
            Ok((next, head)) => match p.next_after_sequence {
                Some(cursor) => if p.events@.len() > 0 && p.events@[p.events@.len() - 1].sequence
                    == cursor && next < p.chain_next_sequence {
                    None
                } else {
                    Some(Some(next))
                },
                None => if next == p.chain_next_sequence && head == p.chain_head_hash@ {
                    None
                } else {
                    Some(Some(next))
                },
            },
        }
    }
}

fn validate_field(value: &str, max: usize) -> (r: bool)
    ensures
        r == (value@.len() > 0 && byte_len(value@) <= max && !has_control(value@)),
{
    let cs = chars_of(value);
    if cs.len() == 0 {
        return false;
    }
    if utf8_len(value) > max {
        return false;
    }
    !any_control(value)
}

/// The bounds every audit field must meet.
pub open spec fn audit_fields_valid(
    category: Seq<char>,
    actor_subject: Seq<char>,
    action: Seq<char>,
    subject: Seq<char>,
) -> bool {
    &&& category.len() > 0 && byte_len(category) <= 64 && !has_control(category)
    &&& actor_subject.len() > 0 && byte_len(actor_subject) <= 512 && !has_control(actor_subject)
    &&& action.len() > 0 && byte_len(action) <= 128 && !has_control(action)
    &&& subject.len() > 0 && byte_len(subject) <= 1024 && !has_control(subject)
}

/// Checks that each audit field is non-empty, bounded and free of control
/// characters.
pub fn validate_fields(category: &str, actor_subject: &str, action: &str, subject: &str) -> (r:
    Result<(), StoreError>)
    ensures
        r is Ok <==> audit_fields_valid(category@, actor_subject@, action@, subject@),
        r matches Err(e) ==> e is InvalidAuditOperation,
{
    if !validate_field(category, 64) {
        return Err(StoreError::InvalidAuditOperation("audit category is outside its bounds".to_owned()));
    }
    if !validate_field(actor_subject, 512) {
        return Err(
            StoreError::InvalidAuditOperation("audit actor subject is outside its bounds".to_owned()),
        );
    }
    if !validate_field(action, 128) {
        return Err(StoreError::InvalidAuditOperation("audit action is outside its bounds".to_owned()));
    }
    if !validate_field(subject, 1024) {
        return Err(StoreError::InvalidAuditOperation("audit subject is outside its bounds".to_owned()));
    }
    Ok(())
}

/// Checks that an audit actor subject is non-empty, at most 512 bytes, not
/// padded with whitespace and free of control characters.
pub fn validate_audit_actor(actor_subject: &str) -> (r: Result<(), StoreError>)
    ensures
        r is Ok <==> (actor_subject@.len() > 0 && byte_len(actor_subject@) <= 512 && !is_padded(
            actor_subject@,
        ) && !has_control(actor_subject@)),
        r matches Err(e) ==> e is InvalidAuditOperation,
{
    let empty = chars_of(actor_subject).len() == 0;
    if empty || utf8_len(actor_subject) > 512 || padded(actor_subject) || any_control(actor_subject) {
        return Err(
            StoreError::InvalidAuditOperation(
                "audit actor subject must be non-empty, canonical, and bounded".to_owned(),
            ),
        );
    }
    Ok(())
}

/// The hash of one event under its tenant.
pub fn compute_audit_event_hash(organization_id: u128, event: &AuditEvent) -> (r: [u8; 32])
    ensures
        r@ == audit_event_hash(organization_id, *event),
{
    let mut msg: Vec<u8> = Vec::new();
    push_bytes(&mut msg, "mcloving-audit-v1\u{0}".as_bytes());
    push_id(&mut msg, organization_id);
    push_i64(&mut msg, event.sequence);
    push_id(&mut msg, event.event_id);
    push_framed_str(&mut msg, event.category.as_str());
    push_framed_str(&mut msg, event.actor_subject.as_str());
    push_framed_str(&mut msg, event.action.as_str());
    push_framed_str(&mut msg, event.subject.as_str());
    push_framed(&mut msg, event.payload.as_slice());
    push_i64(&mut msg, event.occurred_at_unix_ms);
    push_bytes(&mut msg, &event.previous_hash);
    assert(msg@ =~= audit_hash_input(organization_id, *event));
    sha256(msg.as_slice())
}

/// Checks an event's recorded hash against the hash of its content.
pub fn verify_audit_event_hash(organization_id: u128, event: &AuditEvent) -> (r: Result<(), StoreError>)
    ensures
        r is Ok <==> event.event_hash@ == audit_event_hash(organization_id, *event),
        r matches Err(e) ==> e == (StoreError::CorruptAuditChain { organization_id, sequence: event.sequence }),
{
    let expected = compute_audit_event_hash(organization_id, event);
    if !digest_eq(&event.event_hash, &expected) {
        return Err(StoreError::CorruptAuditChain { organization_id, sequence: event.sequence });
    }
    Ok(())
}

/// Checks that a whole export is one unbroken chain from sequence one whose
/// end is the recorded tenant head.
pub fn verify_audit_export(export: &AuditExport) -> (r: Result<(), StoreError>)
    requires
        export.events@.len() < i64::MAX,
    ensures
        r is Ok <==> export_failure(*export) is None,
        r matches Err(e) ==> e == (StoreError::CorruptAuditChain {
            organization_id: export.organization_id,
            sequence: export_failure(*export)->0 as i64,
        }),
{
    let mut expected: i64 = 1;
    let mut previous: [u8; 32] = [0u8; 32];
    assert(previous@ =~= zero_digest());
    let mut i: usize = 0;
    assert(export.events@.skip(0) =~= export.events@);
    while i < export.events.len()
        invariant
            i <= export.events@.len(),
            export.events@.len() < i64::MAX,
            expected == 1 + i,
            scan_chain(export.organization_id, export.events@, 1, zero_digest(), false)
                == scan_chain(
                export.organization_id,
                export.events@.skip(i as int),
                expected as int,
                previous@,
                false,
            ),
        decreases export.events@.len() - i,
    {
        let event = &export.events[i];
        assert(export.events@.skip(i as int)[0] == *event);
        assert(export.events@.skip(i as int).drop_first() =~= export.events@.skip(i + 1));
        if event.sequence != expected || !digest_eq(&event.previous_hash, &previous) {
            return Err(
                StoreError::CorruptAuditChain {
                    organization_id: export.organization_id,
                    sequence: event.sequence,
                },
            );
        }
        let expected_hash = compute_audit_event_hash(export.organization_id, event);
        if !digest_eq(&event.event_hash, &expected_hash) {
            return Err(
                StoreError::CorruptAuditChain {
                    organization_id: export.organization_id,
                    sequence: event.sequence,
                },
            );
        }
        expected = expected + 1;
        previous = event.event_hash;
        i = i + 1;
    }
    if export.next_sequence != expected || !digest_eq(&export.head_hash, &previous) {
        return Err(
            StoreError::CorruptAuditChain {
                organization_id: export.organization_id,
                sequence: expected,
            },
        );
    }
    Ok(())
}

/// Checks that a page continues the chain from its cursor and either hands
/// out a further cursor strictly before the chain head or ends on the head.
pub fn verify_audit_page(page: &AuditPage) -> (r: Result<(), StoreError>)
    ensures
        r is Ok <==> page_failure(*page) is None,
        r matches Err(e) ==> match page_failure(*page) {
            Some(Some(s)) => e == (StoreError::CorruptAuditChain {
                organization_id: page.organization_id,
                sequence: s as i64,
            }),
            _ => e is InvalidAuditOperation,
        },
{
    if page.after_sequence == i64::MAX {
        return Err(StoreError::InvalidAuditOperation("audit page sequence overflow".to_owned()));
    }
    let mut expected: i64 = page.after_sequence + 1;
    let mut previous: [u8; 32] = page.previous_hash;
    let mut i: usize = 0;
    assert(page.events@.skip(0) =~= page.events@);
    while i < page.events.len()
        invariant
            i <= page.events@.len(),
            page.after_sequence < i64::MAX,
            scan_chain(page.organization_id, page.events@, page.after_sequence + 1, page.previous_hash@, true)
                == scan_chain(
                page.organization_id,
                page.events@.skip(i as int),
                expected as int,
                previous@,
                true,
            ),
        decreases page.events@.len() - i,
    {
        let event = &page.events[i];
        assert(page.events@.skip(i as int)[0] == *event);
        assert(page.events@.skip(i as int).drop_first() =~= page.events@.skip(i + 1));
        if event.sequence != expected || !digest_eq(&event.previous_hash, &previous) {
            return Err(
                StoreError::CorruptAuditChain {
                    organization_id: page.organization_id,
                    sequence: event.sequence,
                },
            );
        }
        let expected_hash = compute_audit_event_hash(page.organization_id, event);
        if !digest_eq(&event.event_hash, &expected_hash) {
            return Err(
                StoreError::CorruptAuditChain {
                    organization_id: page.organization_id,
                    sequence: event.sequence,
                },
            );
        }
        if expected == i64::MAX {
            return Err(StoreError::InvalidAuditOperation("audit page sequence overflow".to_owned()));
        }
        expected = expected + 1;
        previous = event.event_hash;
        i = i + 1;
    }
    assert(page.events@.skip(i as int).len() == 0);
    match page.next_after_sequence {
        Some(cursor) => {
            let n = page.events.len();
            let last_matches = n > 0 && page.events[n - 1].sequence == cursor;
            if !last_matches || expected >= page.chain_next_sequence {
                return Err(
                    StoreError::CorruptAuditChain {
                        organization_id: page.organization_id,
                        sequence: expected,
                    },
                );
            }
        },
        None => {
            if expected != page.chain_next_sequence || !digest_eq(&page.chain_head_hash, &previous) {
                return Err(
                    StoreError::CorruptAuditChain {
                        organization_id: page.organization_id,
                        sequence: expected,
                    },
                );
            }
        },
    }
    Ok(())
}

proof fn lemma_links_shift(
    organization_id: u128,
    events: Seq<AuditEvent>,
    first: int,
    start: Seq<u8>,
)
    requires
        events.len() > 0,
    ensures
        chain_links(organization_id, events, first, start) <==> (links_at(
            organization_id,
            events,
            first,
            start,
            0,
        ) && chain_links(organization_id, events.drop_first(), first + 1, events[0].event_hash@)),
{
    let rest = events.drop_first();
    if chain_links(organization_id, events, first, start) {
        assert forall|i: int| 0 <= i < rest.len() implies #[trigger] links_at(
            organization_id,
            rest,
            first + 1,
            events[0].event_hash@,
            i,
        ) by {
            assert(links_at(organization_id, events, first, start, i + 1));
        }
    }
    if links_at(organization_id, events, first, start, 0) && chain_links(
        organization_id,
        rest,
        first + 1,
        events[0].event_hash@,
    ) {
        assert forall|i: int| 0 <= i < events.len() implies #[trigger] links_at(
            organization_id,
            events,
            first,
            start,
            i,
        ) by {
            if i > 0 {
                assert(links_at(organization_id, rest, first + 1, events[0].event_hash@, i - 1));
            }
        }
    }
}

/// The scan accepts exactly the runs whose events all link, and then ends
/// one past the last sequence on the last hash.
pub proof fn lemma_scan_chain_characterized(
    organization_id: u128,
    events: Seq<AuditEvent>,
    first: int,
    start: Seq<u8>,
    checked: bool,
)
    requires
        checked ==> first + events.len() <= i64::MAX,
    ensures
        scan_chain(organization_id, events, first, start, checked) is Ok <==> chain_links(
            organization_id,
            events,
            first,
            start,
        ),
        chain_links(organization_id, events, first, start) ==> scan_chain(
            organization_id,
            events,
            first,
            start,
            checked,
        ) == Ok::<(int, Seq<u8>), Option<int>>((first + events.len(), chain_head(events, start))),
    decreases events.len(),
{
    if events.len() > 0 {
        lemma_links_shift(organization_id, events, first, start);
        lemma_scan_chain_characterized(
            organization_id,
            events.drop_first(),
            first + 1,
            events[0].event_hash@,
            checked,
        );
        if events.len() > 1 {
            assert(chain_head(events.drop_first(), events[0].event_hash@) == chain_head(
                events,
                start,
            ));
        }
    }
}

/// `verify_audit_export` accepts exactly the exports that are one unbroken
/// chain from sequence one ending on the recorded head.
pub proof fn law_export_verdict_is_chain_validity(x: AuditExport)
    ensures
        export_failure(x) is None <==> export_is_valid(x),
{
    lemma_scan_chain_characterized(x.organization_id, x.events@, 1, zero_digest(), false);
}

/// Appending a correctly linked and hashed event to a valid export gives a
/// valid export whose head is the new event.
pub proof fn law_append_keeps_export_valid(x: AuditExport, e: AuditEvent, y: AuditExport)
    requires
        export_is_valid(x),
        e.sequence == x.next_sequence,
        e.previous_hash@ == x.head_hash@,
        e.event_hash@ == audit_event_hash(x.organization_id, e),
        y.organization_id == x.organization_id,
        y.events@ == x.events@.push(e),
        y.next_sequence == x.next_sequence + 1,
        y.head_hash@ == e.event_hash@,
    ensures
        export_is_valid(y),
{
    let n = x.events@.len() as int;
    assert forall|i: int| 0 <= i < y.events@.len() implies #[trigger] links_at(
        y.organization_id,
        y.events@,
        1,
        zero_digest(),
        i,
    ) by {
        if i < n {
            assert(links_at(x.organization_id, x.events@, 1, zero_digest(), i));
        }
    }
}

/// Any run of a valid export, with its cursor, predecessor hash and the
/// export's head, is a page that `verify_audit_page` accepts: with a further
/// cursor at its last event when events remain after it, and ending on the
/// head otherwise.
pub proof fn law_pages_of_valid_export_verify(x: AuditExport, a: int, b: int, p: AuditPage)
    requires
        export_is_valid(x),
        0 <= a <= b <= x.events@.len(),
        b < x.events@.len() ==> a < b,
        p.organization_id == x.organization_id,
        p.after_sequence == a,
        p.previous_hash@ == chain_head(x.events@.subrange(0, a), zero_digest()),
        p.events@ == x.events@.subrange(a, b),
        p.next_after_sequence == (if b < x.events@.len() {
            Some(b as i64)
        } else {
            None::<i64>
        }),
        p.chain_next_sequence == x.next_sequence,
        p.chain_head_hash@ == x.head_hash@,
    ensures
        page_failure(p) is None,
{
    let ev = p.events@;
    assert forall|i: int| 0 <= i < ev.len() implies #[trigger] links_at(
        p.organization_id,
        ev,
        a + 1,
        p.previous_hash@,
        i,
    ) by {
        assert(links_at(x.organization_id, x.events@, 1, zero_digest(), a + i));
        if i == 0 && a > 0 {
            assert(x.events@.subrange(0, a)[a - 1] == x.events@[a - 1]);
        }
    }
    lemma_scan_chain_characterized(p.organization_id, ev, a + 1, p.previous_hash@, true);
    if b > a {
        assert(ev[ev.len() - 1] == x.events@[b - 1]);
        assert(links_at(x.organization_id, x.events@, 1, zero_digest(), b - 1));
    }
    if b == x.events@.len() && a == b && a > 0 {
        assert(x.events@.subrange(0, a)[a - 1] == x.events@[a - 1]);
    }
}

/// A stored audit digest, which must be exactly 32 bytes.
pub fn audit_digest(bytes: &[u8]) -> (r: Result<[u8; 32], StoreError>)
    ensures
        r is Ok <==> bytes@.len() == 32,
        r matches Ok(d) ==> d@ == bytes@,
        r matches Err(e) ==> e matches StoreError::InvalidAuditOperation(m) && m@
            == "audit digest is not exactly 32 bytes"@,
{
    match digest_from_slice(bytes) {
        Some(d) => Ok(d),
        None => Err(StoreError::InvalidAuditOperation("audit digest is not exactly 32 bytes".to_owned())),
    }
}

/// The event an append writes: its fields checked, linked to the tenant's
/// chain head (`sequence` and `previous_hash`, as locked), and hashed.
pub fn new_audit_event(
    organization_id: u128,
    sequence: i64,
    event_id: u128,
    category: &str,
    actor_subject: &str,
    action: &str,
    subject: &str,
    payload: Vec<u8>,
    occurred_at_unix_ms: i64,
    previous_hash: &[u8],
) -> (r: Result<AuditEvent, StoreError>)
    ensures
        r is Ok <==> audit_fields_valid(category@, actor_subject@, action@, subject@) && previous_hash@.len()
            == 32,
        r matches Err(e) ==> e is InvalidAuditOperation,
        audit_fields_valid(category@, actor_subject@, action@, subject@) && previous_hash@.len() != 32 ==> (
        r matches Err(StoreError::InvalidAuditOperation(m)) && m@ == "audit digest is not exactly 32 bytes"@),
        r matches Ok(e) ==> {
            &&& e.sequence == sequence
            &&& e.event_id == event_id
            &&& e.category@ == category@
            &&& e.actor_subject@ == actor_subject@
            &&& e.action@ == action@
            &&& e.subject@ == subject@
            &&& e.payload@ == payload@
            &&& e.occurred_at_unix_ms == occurred_at_unix_ms
            &&& e.previous_hash@ == previous_hash@
            &&& e.event_hash@ == audit_event_hash(organization_id, e)
        },
{
    validate_fields(category, actor_subject, action, subject)?;
    let previous_hash = audit_digest(previous_hash)?;
    let mut event = AuditEvent {
        sequence,
        event_id,
        category: category.to_owned(),
        actor_subject: actor_subject.to_owned(),
        action: action.to_owned(),
        subject: subject.to_owned(),
        payload,
        occurred_at_unix_ms,
        previous_hash,
        event_hash: [0u8; 32],
    };
    let event_hash = compute_audit_event_hash(organization_id, &event);
    let ghost unhashed = event;
    event.event_hash = event_hash;
    assert(audit_hash_input(organization_id, event) == audit_hash_input(organization_id, unhashed));
    Ok(event)
}

/// A page request starts at a non-negative cursor and asks for one to
/// `MAX_AUDIT_PAGE` events.
pub fn validate_page_request(after_sequence: i64, limit: u32) -> (r: Result<(), StoreError>)
    ensures
        r is Ok <==> (after_sequence >= 0 && 1 <= limit <= MAX_AUDIT_PAGE),
        r matches Err(e) ==> e matches StoreError::InvalidAuditOperation(m) && m@
            == "audit page cursor or limit is outside its bounds"@,
{
    if after_sequence < 0 || limit == 0 || limit > MAX_AUDIT_PAGE {
        return Err(
            StoreError::InvalidAuditOperation("audit page cursor or limit is outside its bounds".to_owned()),
        );
    }
    Ok(())
}

/// A page cursor lies before the tenant's chain head.
pub fn check_page_cursor(after_sequence: i64, chain_next_sequence: i64) -> (r: Result<(), StoreError>)
    ensures
        r is Ok <==> after_sequence < chain_next_sequence,
        r matches Err(e) ==> e matches StoreError::InvalidAuditOperation(m) && m@
            == "audit page cursor is beyond the chain head"@,
{
    if after_sequence >= chain_next_sequence {
        return Err(StoreError::InvalidAuditOperation("audit page cursor is beyond the chain head".to_owned()));
    }
    Ok(())
}

/// An export holds at most `MAX_AUDIT_EXPORT` events.
pub fn check_export_size(events: usize) -> (r: Result<(), StoreError>)
    ensures
        r is Ok <==> events <= MAX_AUDIT_EXPORT,
        r matches Err(e) ==> e matches StoreError::InvalidAuditOperation(m) && m@
            == "audit export exceeds its bounded event limit"@,
{
    if events > MAX_AUDIT_EXPORT as usize {
        return Err(StoreError::InvalidAuditOperation("audit export exceeds its bounded event limit".to_owned()));
    }
    Ok(())
}

/// A retention horizon is a non-negative timestamp.
pub fn validate_retention_timestamp(retain_until_unix_ms: i64) -> (r: Result<(), StoreError>)
    ensures
        r is Ok <==> retain_until_unix_ms >= 0,
        r matches Err(e) ==> e matches StoreError::InvalidAuditOperation(m) && m@
            == "audit retention timestamp must be non-negative"@,
{
    if retain_until_unix_ms < 0 {
        return Err(
            StoreError::InvalidAuditOperation("audit retention timestamp must be non-negative".to_owned()),
        );
    }
    Ok(())
}

/// Builds a page from the events read after the cursor, of which at most
/// `limit + 1` were fetched: the page keeps the first `limit`, hands out
/// the last kept sequence as the next cursor when more remained, and is
/// verified before it is returned.
pub fn assemble_audit_page(
    organization_id: u128,
    after_sequence: i64,
    previous_hash: [u8; 32],
    fetched: Vec<AuditEvent>,
    limit: u32,
    chain_next_sequence: i64,
    chain_head_hash: [u8; 32],
    retention: Option<AuditRetentionPolicy>,
) -> (r: Result<AuditPage, StoreError>)
    requires
        limit >= 1,
    ensures
        match r {
            Ok(p) => {
                &&& p.organization_id == organization_id
                &&& p.after_sequence == after_sequence
                &&& p.previous_hash == previous_hash
                &&& p.events@ == fetched@.take(if fetched@.len() > limit { limit as int } else { fetched@.len() as int })
                &&& p.next_after_sequence == (if fetched@.len() > limit {
                    Some(fetched@[limit - 1].sequence)
                } else {
                    None
                })
                &&& p.chain_next_sequence == chain_next_sequence
                &&& p.chain_head_hash == chain_head_hash
                &&& p.retention == retention
                &&& page_failure(p) is None
            },
            Err(e) => e is CorruptAuditChain || e is InvalidAuditOperation,
        },
{
    let has_more = fetched.len() > limit as usize;
    let mut events = fetched;
    let ghost all = events@;
    if has_more {
        events.truncate(limit as usize);
    }
    assert(events@ == all.take(if all.len() > limit { limit as int } else { all.len() as int }));
    let next_after_sequence = if has_more {
        Some(events[events.len() - 1].sequence)
    } else {
        None
    };
    let page = AuditPage {
        organization_id,
        after_sequence,
        previous_hash,
        events,
        next_after_sequence,
        chain_next_sequence,
        chain_head_hash,
        retention,
    };
    match verify_audit_page(&page) {
        Ok(()) => Ok(page),
        Err(e) => Err(e),
    }
}

} // verus!
