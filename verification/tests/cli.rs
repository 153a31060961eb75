use ctxbroker::cli::{local_message_id, plan_send, BrokerArgs, BrokerArgsOpt, BrokerTarget, ConfigError, SendPlan};
use ctxbroker::clock::nanos_stamp;

fn s(x: &str) -> Option<String> {
    Some(x.to_string())
}

fn args(amqp: Option<String>, queue: Option<String>, nats: Option<String>, subject: Option<String>) -> BrokerArgs {
    BrokerArgs { amqp_url: amqp, queue, nats_url: nats, subject, durable: "ctxbroker".to_string() }
}

fn opt_args(amqp: Option<String>, queue: Option<String>, nats: Option<String>, subject: Option<String>) -> BrokerArgsOpt {
    BrokerArgsOpt { amqp_url: amqp, queue, nats_url: nats, subject, durable: "ctxbroker".to_string() }
}

#[test]
fn both_brokers_is_an_error() {
    let e = args(s("amqp://h"), s("q"), s("nats://h"), s("sub")).target().unwrap_err();
    assert_eq!(e, ConfigError::BothBrokers);
    assert_eq!(e.message(), "use either --amqp-url or --nats-url, not both");
}

#[test]
fn no_broker_is_an_error() {
    let e = args(None, s("q"), None, s("sub")).target().unwrap_err();
    assert_eq!(e, ConfigError::NoBroker);
    assert_eq!(e.message(), "pass --amqp-url or --nats-url");
}

#[test]
fn rabbit_needs_a_queue() {
    let e = args(s("amqp://h"), None, None, s("sub")).target().unwrap_err();
    assert_eq!(e, ConfigError::QueueRequired);
    assert_eq!(e.message(), "--queue is required with --amqp-url");
}

#[test]
fn nats_needs_a_subject() {
    let e = args(None, s("q"), s("nats://h"), None).target().unwrap_err();
    assert_eq!(e, ConfigError::SubjectRequired);
    assert_eq!(e.message(), "--subject is required with --nats-url");
}

#[test]
fn topic_required_message() {
    assert_eq!(ConfigError::TopicRequired.message(), "--topic (or --queue/--subject) is required");
}

#[test]
fn rabbit_target() {
    match args(s("amqp://h"), s("jobs"), None, None).target().unwrap() {
        BrokerTarget::RabbitMq { url, queue } => {
            assert_eq!(url, "amqp://h");
            assert_eq!(queue, "jobs");
        }
        other => panic!("unexpected {other:?}"),
    }
}

#[test]
fn nats_target() {
    let mut a = args(None, None, s("nats://h:4222"), s("agent.context"));
    a.durable = "mine".to_string();
    match a.target().unwrap() {
        BrokerTarget::Nats { url, subject, durable } => {
            assert_eq!(url, "nats://h:4222");
            assert_eq!(subject, "agent.context");
            assert_eq!(durable, "mine");
        }
        other => panic!("unexpected {other:?}"),
    }
}

#[test]
fn default_topic_prefers_queue() {
    assert_eq!(args(None, s("q"), None, s("sub")).default_topic(), Some("q"));
    assert_eq!(args(None, None, None, s("sub")).default_topic(), Some("sub"));
    assert_eq!(args(None, None, None, None).default_topic(), None);
}

#[test]
fn as_required_needs_a_url() {
    assert!(opt_args(None, s("q"), None, s("sub")).as_required().is_none());
    let b = opt_args(None, s("q"), s("nats://h"), None).as_required().unwrap();
    assert_eq!(b.nats_url.as_deref(), Some("nats://h"));
    assert_eq!(b.queue.as_deref(), Some("q"));
    assert_eq!(b.amqp_url, None);
    assert_eq!(b.subject, None);
    assert_eq!(b.durable, "ctxbroker");
}

#[test]
fn send_without_broker_stages_locally() {
    match plan_send(None, &None) {
        SendPlan::Stage { source: topic } => assert_eq!(topic, "local"),
        other => panic!("unexpected {other:?}"),
    }
    match plan_send(s("mine"), &Some(opt_args(None, s("q"), None, None))) {
        SendPlan::Stage { source: topic } => assert_eq!(topic, "mine"),
        other => panic!("unexpected {other:?}"),
    }
}

#[test]
fn send_with_broker_publishes() {
    match plan_send(s("explicit"), &Some(opt_args(s("amqp://h"), s("q"), None, None))) {
        SendPlan::Publish { broker, topic } => {
            assert_eq!(broker.amqp_url.as_deref(), Some("amqp://h"));
            assert_eq!(topic.as_deref(), Some("explicit"));
        }
        other => panic!("unexpected {other:?}"),
    }
    match plan_send(None, &Some(opt_args(None, None, s("nats://h"), s("sub")))) {
        SendPlan::Publish { topic, .. } => assert_eq!(topic.as_deref(), Some("sub")),
        other => panic!("unexpected {other:?}"),
    }
    match plan_send(None, &Some(opt_args(None, None, s("nats://h"), None))) {
        SendPlan::Publish { topic, .. } => assert_eq!(topic, None),
        other => panic!("unexpected {other:?}"),
    }
}

#[test]
fn local_ids() {
    assert_eq!(local_message_id(0), "local-0");
    assert_eq!(local_message_id(1_715_000_000_123_456_789), "local-1715000000123456789");
}

#[test]
fn clock_reads_after_2020() {
    let n = nanos_stamp().unwrap();
    assert!(n > 1_577_836_800_000_000_000);
}
