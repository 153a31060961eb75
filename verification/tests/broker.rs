use ctxbroker::broker::{broker_message, message_id, stream_name, BrokerReply, DrainProgress};
use ctxbroker::mcp::SendMessageParams;

fn looks_like_uuid_v4(s: &str) -> bool {
    let c: Vec<char> = s.chars().collect();
    c.len() == 36
        && c.iter().enumerate().all(|(k, ch)| {
            if k == 8 || k == 13 || k == 18 || k == 23 {
                *ch == '-'
            } else {
                ch.is_ascii_digit() || ('a'..='f').contains(ch)
            }
        })
        && c[14] == '4'
        && "89ab".contains(c[19])
}

#[test]
fn carried_id_is_kept() {
    assert_eq!(message_id(Some("abc-123".to_string())), "abc-123");
}

#[test]
fn missing_id_gets_a_fresh_uuid() {
    let a = message_id(None);
    let b = message_id(None);
    assert!(looks_like_uuid_v4(&a), "{a}");
    assert!(looks_like_uuid_v4(&b), "{b}");
    assert_ne!(a, b);
}

#[test]
fn broker_message_decodes_payload() {
    let m = broker_message(Some("id-1".to_string()), "héllo".as_bytes(), "agent.context");
    assert_eq!(m.id, "id-1");
    assert_eq!(m.source, "agent.context");
    assert_eq!(m.body, "héllo");
}

#[test]
fn broker_message_replaces_invalid_utf8() {
    let m = broker_message(None, &[0x66, 0xff, 0x6f], "q");
    assert_eq!(m.body, "f\u{FFFD}o");
    assert!(looks_like_uuid_v4(&m.id));
    let empty = broker_message(Some(String::new()), &[], "q");
    assert_eq!(empty.id, "");
    assert_eq!(empty.body, "");
}

#[test]
fn stream_name_replaces_dots() {
    assert_eq!(stream_name("agent.context"), "agent_context");
    assert_eq!(stream_name("a.b.c."), "a_b_c_");
    assert_eq!(stream_name("plain"), "plain");
    assert_eq!(stream_name(""), "");
}

#[test]
fn drain_progress_counts() {
    let mut d = DrainProgress::new(3);
    assert!(d.wants_more());
    assert_eq!(d.after_staging(Some(true)), BrokerReply::Ack);
    assert_eq!(d.after_staging(Some(false)), BrokerReply::Ack);
    assert!(d.wants_more());
    assert_eq!(d.after_staging(Some(true)), BrokerReply::Ack);
    assert!(!d.wants_more());
    assert_eq!(d.drained(), 3);
    assert_eq!(d.newly_enqueued(), 2);
}

#[test]
fn drain_of_zero_pulls_nothing() {
    let d = DrainProgress::new(0);
    assert!(!d.wants_more());
    assert_eq!(d.drained(), 0);
    assert_eq!(d.newly_enqueued(), 0);
}

#[test]
fn send_message_params_fields() {
    let p = SendMessageParams { topic: "t".to_string(), body: "b".to_string() };
    assert_eq!(p.topic, "t");
    assert_eq!(p.body, "b");
}

#[test]
fn failed_staging_is_refused_and_not_counted() {
    let mut d = DrainProgress::new(5);
    assert_eq!(d.after_staging(Some(true)), BrokerReply::Ack);
    assert_eq!(d.after_staging(None), BrokerReply::NackAndStop);
    assert_eq!(d.drained(), 1);
    assert_eq!(d.newly_enqueued(), 1);
}

#[test]
fn staging_beyond_the_limit_is_refused() {
    let mut d = DrainProgress::new(1);
    assert_eq!(d.after_staging(Some(true)), BrokerReply::Ack);
    assert_eq!(d.after_staging(Some(true)), BrokerReply::NackAndStop);
    assert_eq!(d.drained(), 1);
    assert_eq!(d.newly_enqueued(), 1);
}
