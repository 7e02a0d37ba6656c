use mcloving_controller_store::audit::{
    assemble_audit_page, audit_digest, check_export_size, check_page_cursor, new_audit_event,
    validate_page_request, validate_retention_timestamp, compute_audit_event_hash, validate_audit_actor, validate_fields, verify_audit_event_hash,
    verify_audit_export, verify_audit_page, AuditEvent, AuditExport, AuditPage,
};
use mcloving_controller_store::StoreError;

fn hex_of(bytes: &[u8]) -> String {
    bytes.iter().map(|b| format!("{b:02x}")).collect()
}

fn event(organization_id: u128, sequence: i64, previous_hash: [u8; 32]) -> AuditEvent {
    let mut event = AuditEvent {
        sequence,
        event_id: 1 + sequence as u128,
        category: "security".to_owned(),
        actor_subject: "alice".to_owned(),
        action: "grant".to_owned(),
        subject: "org/1".to_owned(),
        payload: b"{}".to_vec(),
        occurred_at_unix_ms: 1000 * sequence,
        previous_hash,
        event_hash: [0; 32],
    };
    event.event_hash = compute_audit_event_hash(organization_id, &event);
    event
}

fn chain(organization_id: u128, length: i64) -> Vec<AuditEvent> {
    let mut events = Vec::new();
    let mut previous = [0u8; 32];
    for sequence in 1..=length {
        let next = event(organization_id, sequence, previous);
        previous = next.event_hash;
        events.push(next);
    }
    events
}

fn export_of(organization_id: u128, events: Vec<AuditEvent>) -> AuditExport {
    let head_hash = events.last().map(|e| e.event_hash).unwrap_or([0; 32]);
    AuditExport {
        organization_id,
        next_sequence: events.len() as i64 + 1,
        head_hash,
        events,
        retention: None,
    }
}

#[test]
fn audit_event_hash_has_its_exact_value() {
    let event = event(1, 1, [0; 32]);
    assert_eq!(
        hex_of(&event.event_hash),
        "ae3cdc8371037140033c152c32ba0ef129e5e2bc688d86ac186838af6a9e6162"
    );
    assert_eq!(verify_audit_event_hash(1, &event), Ok(()));
    assert_eq!(
        verify_audit_event_hash(2, &event),
        Err(StoreError::CorruptAuditChain { organization_id: 2, sequence: 1 })
    );
}

#[test]
fn audit_hash_depends_on_every_field() {
    let base = event(1, 1, [0; 32]);
    let mut changed = base.clone();
    changed.payload = b"{\"a\":1}".to_vec();
    assert_ne!(compute_audit_event_hash(1, &changed), base.event_hash);
    let mut changed = base.clone();
    changed.previous_hash = [1; 32];
    assert_ne!(compute_audit_event_hash(1, &changed), base.event_hash);
    let mut changed = base.clone();
    changed.category = "securit".to_owned();
    changed.actor_subject = "yalice".to_owned();
    assert_ne!(compute_audit_event_hash(1, &changed), base.event_hash);
}

#[test]
fn unbroken_export_verifies() {
    assert_eq!(verify_audit_export(&export_of(7, chain(7, 3))), Ok(()));
    assert_eq!(verify_audit_export(&export_of(7, Vec::new())), Ok(()));
}

#[test]
fn tampered_export_reports_the_first_bad_sequence() {
    let mut events = chain(7, 3);
    events[1].payload = b"{\"x\":true}".to_vec();
    assert_eq!(
        verify_audit_export(&export_of(7, events)),
        Err(StoreError::CorruptAuditChain { organization_id: 7, sequence: 2 })
    );
}

#[test]
fn export_with_a_wrong_head_reports_the_next_sequence() {
    let mut export = export_of(7, chain(7, 2));
    export.head_hash = [9; 32];
    assert_eq!(
        verify_audit_export(&export),
        Err(StoreError::CorruptAuditChain { organization_id: 7, sequence: 3 })
    );
    let mut export = export_of(7, chain(7, 2));
    export.next_sequence = 4;
    assert_eq!(
        verify_audit_export(&export),
        Err(StoreError::CorruptAuditChain { organization_id: 7, sequence: 3 })
    );
}

#[test]
fn export_of_another_tenant_does_not_verify() {
    assert_eq!(
        verify_audit_export(&export_of(8, chain(7, 2))),
        Err(StoreError::CorruptAuditChain { organization_id: 8, sequence: 1 })
    );
}

#[test]
fn pages_verify_against_cursor_and_head() {
    let events = chain(3, 4);
    let head = events[3].event_hash;
    let first = AuditPage {
        organization_id: 3,
        after_sequence: 0,
        previous_hash: [0; 32],
        events: events[0..2].to_vec(),
        next_after_sequence: Some(2),
        chain_next_sequence: 5,
        chain_head_hash: head,
        retention: None,
    };
    assert_eq!(verify_audit_page(&first), Ok(()));
    let last = AuditPage {
        organization_id: 3,
        after_sequence: 2,
        previous_hash: events[1].event_hash,
        events: events[2..4].to_vec(),
        next_after_sequence: None,
        chain_next_sequence: 5,
        chain_head_hash: head,
        retention: None,
    };
    assert_eq!(verify_audit_page(&last), Ok(()));
    let mut bad_cursor = first.clone();
    bad_cursor.next_after_sequence = Some(1);
    assert_eq!(
        verify_audit_page(&bad_cursor),
        Err(StoreError::CorruptAuditChain { organization_id: 3, sequence: 3 })
    );
    let mut short_head = last.clone();
    short_head.chain_next_sequence = 6;
    assert_eq!(
        verify_audit_page(&short_head),
        Err(StoreError::CorruptAuditChain { organization_id: 3, sequence: 5 })
    );
    let mut broken = last;
    broken.previous_hash = [0; 32];
    assert_eq!(
        verify_audit_page(&broken),
        Err(StoreError::CorruptAuditChain { organization_id: 3, sequence: 3 })
    );
}

#[test]
fn page_cursor_at_the_end_of_i64_is_refused() {
    let page = AuditPage {
        organization_id: 3,
        after_sequence: i64::MAX,
        previous_hash: [0; 32],
        events: Vec::new(),
        next_after_sequence: None,
        chain_next_sequence: 1,
        chain_head_hash: [0; 32],
        retention: None,
    };
    assert!(matches!(verify_audit_page(&page), Err(StoreError::InvalidAuditOperation(_))));
}

#[test]
fn audit_fields_are_bounded_and_free_of_controls() {
    assert_eq!(validate_fields("security", "alice", "grant", "org/1"), Ok(()));
    assert!(matches!(
        validate_fields("", "alice", "grant", "org/1"),
        Err(StoreError::InvalidAuditOperation(_))
    ));
    assert!(matches!(
        validate_fields(&"c".repeat(65), "alice", "grant", "org/1"),
        Err(StoreError::InvalidAuditOperation(_))
    ));
    assert_eq!(validate_fields(&"c".repeat(64), "alice", "grant", "org/1"), Ok(()));
    assert!(matches!(
        validate_fields("security", "alice", "gr\nant", "org/1"),
        Err(StoreError::InvalidAuditOperation(_))
    ));
    assert!(matches!(
        validate_fields("security", "alice", "grant", &"s".repeat(1025)),
        Err(StoreError::InvalidAuditOperation(_))
    ));
}

#[test]
fn audit_actor_must_be_canonical() {
    assert_eq!(validate_audit_actor("alice"), Ok(()));
    assert!(validate_audit_actor(" alice").is_err());
    assert!(validate_audit_actor("alice ").is_err());
    assert!(validate_audit_actor("").is_err());
    assert!(validate_audit_actor(&"a".repeat(513)).is_err());
    assert_eq!(validate_audit_actor(&"a".repeat(512)), Ok(()));
}

#[test]
fn appended_events_continue_the_chain() {
    let events = chain(5, 2);
    let head = events[1].event_hash;
    let appended = new_audit_event(5, 3, 99, "security", "alice", "grant", "org/1", b"{}".to_vec(), 7, &head)
        .unwrap();
    assert_eq!(appended.previous_hash, head);
    assert_eq!(appended.event_hash, compute_audit_event_hash(5, &appended));
    let mut all = events;
    all.push(appended);
    assert_eq!(verify_audit_export(&export_of(5, all)), Ok(()));
    assert_eq!(
        new_audit_event(5, 3, 99, "security", "alice", "grant", "org/1", Vec::new(), 7, &head[..31]),
        Err(StoreError::InvalidAuditOperation("audit digest is not exactly 32 bytes".to_owned()))
    );
    assert!(matches!(
        new_audit_event(5, 3, 99, "", "alice", "grant", "org/1", Vec::new(), 7, &head),
        Err(StoreError::InvalidAuditOperation(_))
    ));
}

#[test]
fn audit_requests_are_bounded() {
    assert_eq!(validate_page_request(0, 1), Ok(()));
    assert_eq!(validate_page_request(0, 10_000), Ok(()));
    let refused = Err(StoreError::InvalidAuditOperation("audit page cursor or limit is outside its bounds".to_owned()));
    assert_eq!(validate_page_request(-1, 5), refused);
    assert_eq!(validate_page_request(0, 0), refused);
    assert_eq!(validate_page_request(0, 10_001), refused);
    assert_eq!(check_page_cursor(2, 3), Ok(()));
    assert_eq!(
        check_page_cursor(3, 3),
        Err(StoreError::InvalidAuditOperation("audit page cursor is beyond the chain head".to_owned()))
    );
    assert_eq!(check_export_size(100_000), Ok(()));
    assert_eq!(
        check_export_size(100_001),
        Err(StoreError::InvalidAuditOperation("audit export exceeds its bounded event limit".to_owned()))
    );
    assert_eq!(validate_retention_timestamp(0), Ok(()));
    assert_eq!(
        validate_retention_timestamp(-1),
        Err(StoreError::InvalidAuditOperation("audit retention timestamp must be non-negative".to_owned()))
    );
    assert_eq!(audit_digest(&[1; 32]), Ok([1; 32]));
    assert!(audit_digest(&[1; 33]).is_err());
}

#[test]
fn assembled_pages_cut_at_the_limit_and_verify() {
    let events = chain(4, 5);
    let head = events[4].event_hash;
    let page = assemble_audit_page(4, 0, [0; 32], events[0..3].to_vec(), 2, 6, head, None).unwrap();
    assert_eq!(page.events.len(), 2);
    assert_eq!(page.next_after_sequence, Some(2));
    let rest = assemble_audit_page(4, 2, events[1].event_hash, events[2..5].to_vec(), 3, 6, head, None).unwrap();
    assert_eq!(rest.events.len(), 3);
    assert_eq!(rest.next_after_sequence, None);
    assert_eq!(
        assemble_audit_page(4, 2, events[1].event_hash, events[2..4].to_vec(), 3, 6, head, None),
        Err(StoreError::CorruptAuditChain { organization_id: 4, sequence: 5 })
    );
}
