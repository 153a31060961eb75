use ctxbroker::store::{lease_modifier_text, InboxRow, Message, Status, Store};

const T0: &str = "2024-05-01 10:00:00";
const T1: &str = "2024-05-01 10:00:01";
const T2: &str = "2024-05-01 10:00:02";
const T3: &str = "2024-05-01 10:05:00";
const T4: &str = "2024-05-01 10:10:00";

fn row(id: &str, received_at: &str, status: Status, claimed_by: Option<&str>, lease: Option<&str>) -> InboxRow {
    InboxRow {
        msg_id: id.to_string(),
        source: "agent.context".to_string(),
        body: format!("body of {id}"),
        received_at: received_at.to_string(),
        status,
        claimed_by: claimed_by.map(|s| s.to_string()),
        lease_expires_at: lease.map(|s| s.to_string()),
    }
}

fn claim(store: &mut Store, session: &str, now: &str, until: &str) -> Option<Message> {
    store.claim_next(session, now, Some(until))
}

#[test]
fn enqueue_adds_a_pending_row() {
    let mut store = Store::new();
    assert!(store.enqueue("m1", "agent.context", "hello", T0));
    assert_eq!(store.len(), 1);
    let r = store.row("m1").unwrap();
    assert_eq!(r.source, "agent.context");
    assert_eq!(r.body, "hello");
    assert_eq!(r.received_at, T0);
    assert_eq!(r.status, Status::Pending);
    assert_eq!(r.claimed_by, None);
    assert_eq!(r.lease_expires_at, None);
}

#[test]
fn redelivered_id_is_a_noop() {
    let mut store = Store::new();
    assert!(store.enqueue("m1", "first", "one", T0));
    assert!(!store.enqueue("m1", "second", "two", T1));
    assert_eq!(store.len(), 1);
    let r = store.row("m1").unwrap();
    assert_eq!(r.source, "first");
    assert_eq!(r.body, "one");
    assert_eq!(r.received_at, T0);
}

#[test]
fn claim_on_empty_ledger_is_none() {
    let mut store = Store::new();
    assert!(claim(&mut store, "s", T0, T3).is_none());
    assert_eq!(store.len(), 0);
}

#[test]
fn claim_takes_the_oldest_by_receipt_time() {
    let mut store = Store::new();
    store.enqueue("late", "src", "b", T2);
    store.enqueue("early", "src", "a", T0);
    store.enqueue("middle", "src", "c", T1);
    let m = claim(&mut store, "agent", T3, T4).unwrap();
    assert_eq!(m.id, "early");
    assert_eq!(m.body, "a");
    assert_eq!(m.received_at, T0);
    assert_eq!(m.lease_expires_at, None);
    let r = store.row("early").unwrap();
    assert_eq!(r.status, Status::Leased);
    assert_eq!(r.claimed_by.as_deref(), Some("agent"));
    assert_eq!(r.lease_expires_at.as_deref(), Some(T4));
    assert_eq!(store.row("late").unwrap().status, Status::Pending);
    assert_eq!(store.row("middle").unwrap().status, Status::Pending);
}

#[test]
fn claim_ties_go_to_the_first_in_ledger_order() {
    let mut store = Store::new();
    store.enqueue("a", "src", "x", T1);
    store.enqueue("b", "src", "y", T1);
    assert_eq!(claim(&mut store, "s", T3, T4).unwrap().id, "a");
    assert_eq!(claim(&mut store, "s", T3, T4).unwrap().id, "b");
    assert!(claim(&mut store, "s", T3, T4).is_none());
}

#[test]
fn live_lease_blocks_a_second_claim() {
    let mut store = Store::new();
    store.enqueue("m1", "src", "x", T0);
    assert!(claim(&mut store, "alice", T1, T3).is_some());
    // now (T2) is before the lease's end (T3): nothing to claim
    assert!(claim(&mut store, "bob", T2, T4).is_none());
    // a lease ending exactly now is not yet run out
    assert!(claim(&mut store, "bob", T3, T4).is_none());
    assert_eq!(store.row("m1").unwrap().claimed_by.as_deref(), Some("alice"));
}

#[test]
fn expired_lease_is_reclaimed_and_former_ack_refused() {
    let mut store = Store::new();
    store.enqueue("m1", "src", "x", T0);
    assert!(claim(&mut store, "alice", T0, T1).is_some());
    let m = claim(&mut store, "bob", T2, T4).unwrap();
    assert_eq!(m.id, "m1");
    assert_eq!(store.row("m1").unwrap().claimed_by.as_deref(), Some("bob"));
    // alice's late ack is a no-op
    assert!(!store.ack("m1", "alice", T3));
    assert_eq!(store.row("m1").unwrap().status, Status::Leased);
    // bob holds the lease and may ack
    assert!(store.ack("m1", "bob", T3));
    let r = store.row("m1").unwrap();
    assert_eq!(r.status, Status::Delivered);
    assert_eq!(r.lease_expires_at, None);
    assert_eq!(r.claimed_by.as_deref(), Some("bob"));
}

#[test]
fn ack_by_holder_delivers_once() {
    let mut store = Store::new();
    store.enqueue("m1", "src", "x", T0);
    claim(&mut store, "s", T0, T3).unwrap();
    assert!(store.ack("m1", "s", T1));
    assert!(!store.ack("m1", "s", T1));
    assert!(!store.ack("m1", "other", T1));
    assert_eq!(store.row("m1").unwrap().status, Status::Delivered);
}

#[test]
fn ack_refused_for_unknown_pending_or_other_session() {
    let mut store = Store::new();
    store.enqueue("m1", "src", "x", T0);
    store.enqueue("m2", "src", "y", T1);
    assert!(!store.ack("nope", "s", T1));
    assert!(!store.ack("m1", "s", T1));
    assert_eq!(store.row("m1").unwrap().status, Status::Pending);
    claim(&mut store, "s", T1, T3).unwrap();
    assert!(!store.ack("m1", "other", T2));
    assert_eq!(store.row("m1").unwrap().status, Status::Leased);
}

#[test]
fn ack_after_lease_expiry_is_refused() {
    let mut store = Store::new();
    store.enqueue("m1", "src", "x", T0);
    claim(&mut store, "s", T0, T1).unwrap();
    // the lease ran out (T1 < T2), though nobody reclaimed it
    assert!(!store.ack("m1", "s", T2));
    let r = store.row("m1").unwrap();
    assert_eq!(r.status, Status::Leased);
    assert_eq!(r.lease_expires_at.as_deref(), Some(T1));
    // at the lease's last second the holder may still ack
    assert!(store.ack("m1", "s", T1));
}

#[test]
fn delivered_message_is_never_claimed_again() {
    let mut store = Store::new();
    store.enqueue("m1", "src", "x", T0);
    claim(&mut store, "s", T0, T1).unwrap();
    assert!(store.ack("m1", "s", T0));
    assert!(claim(&mut store, "t", T4, T4).is_none());
    assert!(!store.enqueue("m1", "src", "again", T4));
    assert_eq!(store.row("m1").unwrap().status, Status::Delivered);
}

#[test]
fn leased_row_without_lease_end_is_never_claimable() {
    let rows = vec![row("m1", T0, Status::Leased, Some("s"), None)];
    let mut store = Store::from_rows(rows).unwrap();
    assert!(claim(&mut store, "t", T4, T4).is_none());
}

#[test]
fn from_rows_keeps_order_and_rejects_duplicate_ids() {
    let rows = vec![
        row("a", T1, Status::Pending, None, None),
        row("b", T0, Status::Delivered, Some("s"), None),
        row("c", T1, Status::Leased, Some("s"), Some(T2)),
    ];
    let mut store = Store::from_rows(rows).unwrap();
    assert_eq!(store.len(), 3);
    assert_eq!(store.position("c"), Some(2));
    // "b" is delivered, "c" is leased until T2 and T3 is past it: "a" and
    // "c" tie on receipt time and "a" comes first
    assert_eq!(claim(&mut store, "t", T3, T4).unwrap().id, "a");
    assert_eq!(claim(&mut store, "t", T3, T4).unwrap().id, "c");
    let dup = vec![row("a", T0, Status::Pending, None, None), row("a", T1, Status::Pending, None, None)];
    assert!(Store::from_rows(dup).is_none());
}

#[test]
fn status_texts_round_trip() {
    for s in [Status::Pending, Status::Leased, Status::Delivered] {
        assert_eq!(Status::from_text(s.as_str()), Some(s));
    }
    assert_eq!(Status::Pending.as_str(), "pending");
    assert_eq!(Status::Leased.as_str(), "leased");
    assert_eq!(Status::Delivered.as_str(), "delivered");
    assert_eq!(Status::from_text("Pending"), None);
    assert_eq!(Status::from_text(""), None);
}

#[test]
fn lease_texts() {
    assert_eq!(lease_modifier_text(0), "+0 seconds");
    assert_eq!(lease_modifier_text(-5), "+-5 seconds");
    assert_eq!(lease_modifier_text(300), "+300 seconds");
    assert_eq!(lease_modifier_text(i64::MIN), "+-9223372036854775808 seconds");
}

#[test]
fn claimed_message_reports_no_lease_end() {
    let mut store = Store::new();
    store.enqueue("m1", "src", "x", T0);
    let m = store.claim_next("s", T1, Some(T3)).unwrap();
    assert_eq!(m.lease_expires_at, None);
    assert_eq!(store.row("m1").unwrap().lease_expires_at.as_deref(), Some(T3));
}

#[test]
fn claim_without_lease_end_is_never_reclaimed() {
    let mut store = Store::new();
    store.enqueue("m1", "src", "x", T0);
    let m = store.claim_next("s", T1, None).unwrap();
    assert_eq!(m.id, "m1");
    let r = store.row("m1").unwrap();
    assert_eq!(r.status, Status::Leased);
    assert_eq!(r.lease_expires_at, None);
    assert!(claim(&mut store, "t", T4, T4).is_none());
    assert!(store.ack("m1", "s", T4));
}
