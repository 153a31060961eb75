//! The decisions of the command line: which broker a set of flags selects,
//! which topic a message goes to, and when a message is staged locally
//! instead of published.

use vstd::prelude::*;
use crate::store::{opt_view, opt_str_view, clone_text, clone_opt_text};
use crate::text::{push_decimal, decimal, digits_value, lemma_decimal_denotes};

verus! {

/// Broker flags for a subcommand that needs a broker. Exactly one of
/// `amqp_url` and `nats_url` must be set.
#[derive(Debug)]
pub struct BrokerArgs {
    pub amqp_url: Option<String>,
    /// RabbitMQ queue name; required with `amqp_url`.
    pub queue: Option<String>,
    pub nats_url: Option<String>,
    /// NATS subject; required with `nats_url`.
    pub subject: Option<String>,
    /// JetStream durable consumer name; only used with `nats_url`.
    pub durable: String,
}

/// Broker flags for `send`, where naming no broker at all is valid.
#[derive(Debug)]
pub struct BrokerArgsOpt {
    pub amqp_url: Option<String>,
    pub queue: Option<String>,
    pub nats_url: Option<String>,
    pub subject: Option<String>,
    pub durable: String,
}

/// The mathematical content of a set of broker flags.
pub struct BrokerArgsModel {
    pub amqp_url: Option<Seq<char>>,
    pub queue: Option<Seq<char>>,
    pub nats_url: Option<Seq<char>>,
    pub subject: Option<Seq<char>>,
    pub durable: Seq<char>,
}

impl View for BrokerArgs {
    type V = BrokerArgsModel;

    open spec fn view(&self) -> BrokerArgsModel {
        BrokerArgsModel {
            amqp_url: opt_view(self.amqp_url),
            queue: opt_view(self.queue),
            nats_url: opt_view(self.nats_url),
            subject: opt_view(self.subject),
            durable: self.durable@,
        }
    }
}

impl View for BrokerArgsOpt {
    type V = BrokerArgsModel;

    open spec fn view(&self) -> BrokerArgsModel {
        BrokerArgsModel {
            amqp_url: opt_view(self.amqp_url),
            queue: opt_view(self.queue),
            nats_url: opt_view(self.nats_url),
            subject: opt_view(self.subject),
            durable: self.durable@,
        }
    }
}

/// The topic a set of flags names: the queue if there is one, else the
/// subject.
pub open spec fn flags_topic(a: BrokerArgsModel) -> Option<Seq<char>> {
    if a.queue is Some {
        a.queue
    } else {
        a.subject
    }
}

/// A broker to connect to, with what the connection needs.
#[derive(Debug)]
pub enum BrokerTarget {
    RabbitMq { url: String, queue: String },
    Nats { url: String, subject: String, durable: String },
}

/// Why a command could not go ahead.
#[derive(Debug, Clone, Copy, PartialEq, Eq, Structural)]
pub enum ConfigError {
    /// Both `--amqp-url` and `--nats-url` were given.
    BothBrokers,
    /// Neither `--amqp-url` nor `--nats-url` was given.
    NoBroker,
    /// `--amqp-url` without `--queue`.
    QueueRequired,
    /// `--nats-url` without `--subject`.
    SubjectRequired,
    /// Publishing with no topic, queue or subject.
    TopicRequired,
}

/// The message reported for an error.
pub open spec fn config_error_text(e: ConfigError) -> Seq<char> {
    match e {
        ConfigError::BothBrokers => "use either --amqp-url or --nats-url, not both"@,
        ConfigError::NoBroker => "pass --amqp-url or --nats-url"@,
        ConfigError::QueueRequired => "--queue is required with --amqp-url"@,
        ConfigError::SubjectRequired => "--subject is required with --nats-url"@,
        ConfigError::TopicRequired => "--topic (or --queue/--subject) is required"@,
    }
}

impl ConfigError {
    /// The message reported for this error.
    pub fn message(&self) -> (r: &'static str)
        ensures
            r@ == config_error_text(*self),
    {
        match self {
            ConfigError::BothBrokers => "use either --amqp-url or --nats-url, not both",
            ConfigError::NoBroker => "pass --amqp-url or --nats-url",
            ConfigError::QueueRequired => "--queue is required with --amqp-url",
            ConfigError::SubjectRequired => "--subject is required with --nats-url",
            ConfigError::TopicRequired => "--topic (or --queue/--subject) is required",
        }
    }
}

/// The broker a set of flags selects, or why it selects none: both URLs is
/// an error, so is neither; a RabbitMQ URL needs a queue, a NATS URL needs a
/// subject (and takes the durable consumer name along).
pub open spec fn target_of(a: BrokerArgsModel) -> Result<
    (bool, Seq<char>, Seq<char>, Seq<char>),
    ConfigError,
> {
    if a.amqp_url is Some && a.nats_url is Some {
        Err(ConfigError::BothBrokers)
    } else if a.amqp_url is None && a.nats_url is None {
        Err(ConfigError::NoBroker)
    } else if a.amqp_url is Some {
        match a.queue {
            Some(q) => Ok((true, a.amqp_url->0, q, Seq::empty())),
            None => Err(ConfigError::QueueRequired),
        }
    } else {
        match a.subject {
            Some(s) => Ok((false, a.nats_url->0, s, a.durable)),
            None => Err(ConfigError::SubjectRequired),
        }
    }
}

/// The view of a broker target: whether it is RabbitMQ, its URL, its queue
/// or subject, and (for NATS) the durable consumer name.
pub open spec fn target_view(t: BrokerTarget) -> (bool, Seq<char>, Seq<char>, Seq<char>) {
    match t {
        BrokerTarget::RabbitMq { url, queue } => (true, url@, queue@, Seq::empty()),
        BrokerTarget::Nats { url, subject, durable } => (false, url@, subject@, durable@),
    }
}

impl BrokerArgs {
    /// The topic or subject to publish to: the queue if one was given,
    /// else the subject.
    pub fn default_topic(&self) -> (r: Option<&str>)
        ensures
            opt_str_view(r) == flags_topic(self@),
            match self@.queue {
                Some(q) => opt_str_view(r) == Some(q),
                None => opt_str_view(r) == self@.subject,
            },
    {
        match &self.queue {
            Some(q) => Some(q.as_str()),
            None => match &self.subject {
                Some(s) => Some(s.as_str()),
                None => None,
            },
        }
    }

    /// The broker these flags select, or the error that the flags earn.
    pub fn target(&self) -> (r: Result<BrokerTarget, ConfigError>)
        ensures
            match r {
                Ok(t) => target_of(self@) == Ok::<_, ConfigError>(target_view(t)),
                Err(e) => target_of(self@) == Err::<(bool, Seq<char>, Seq<char>, Seq<char>), _>(e),
            },
            (self@.amqp_url is Some && self@.nats_url is Some) ==> r == Err::<BrokerTarget, _>(
                ConfigError::BothBrokers,
            ),
            (self@.amqp_url is None && self@.nats_url is None) ==> r == Err::<BrokerTarget, _>(
                ConfigError::NoBroker,
            ),
            (self@.amqp_url is Some && self@.nats_url is None) ==> match self@.queue {
                None => r == Err::<BrokerTarget, _>(ConfigError::QueueRequired),
                Some(q) => r matches Ok(BrokerTarget::RabbitMq { url, queue }) && url@
                    == self@.amqp_url->0 && queue@ == q,
            },
            (self@.amqp_url is None && self@.nats_url is Some) ==> match self@.subject {
                None => r == Err::<BrokerTarget, _>(ConfigError::SubjectRequired),
                Some(sub) => r matches Ok(BrokerTarget::Nats { url, subject, durable }) && url@
                    == self@.nats_url->0 && subject@ == sub && durable@ == self@.durable,
            },
    {
        let has_amqp = self.amqp_url.is_some();
        let has_nats = self.nats_url.is_some();
        if has_amqp && has_nats {
            return Err(ConfigError::BothBrokers);
        }
        if !has_amqp && !has_nats {
            return Err(ConfigError::NoBroker);
        }
        match &self.amqp_url {
            Some(url) => match &self.queue {
                Some(q) => Ok(
                    BrokerTarget::RabbitMq { url: clone_text(url), queue: clone_text(q) },
                ),
                None => Err(ConfigError::QueueRequired),
            },
            None => match (&self.nats_url, &self.subject) {
                (Some(url), Some(s)) => Ok(
                    BrokerTarget::Nats {
                        url: clone_text(url),
                        subject: clone_text(s),
                        durable: clone_text(&self.durable),
                    },
                ),
                _ => Err(ConfigError::SubjectRequired),
            },
        }
    }
}

impl BrokerArgsOpt {
    /// These flags as required broker flags, or `None` when they name no
    /// broker URL at all.
    pub fn as_required(&self) -> (r: Option<BrokerArgs>)
        ensures
            r is None <==> (self@.amqp_url is None && self@.nats_url is None),
            match r {
                Some(b) => b@ == self@,
                None => true,
            },
    {
        if self.amqp_url.is_none() && self.nats_url.is_none() {
            return None;
        }
        Some(
            BrokerArgs {
                amqp_url: clone_opt_text(&self.amqp_url),
                queue: clone_opt_text(&self.queue),
                nats_url: clone_opt_text(&self.nats_url),
                subject: clone_opt_text(&self.subject),
                durable: clone_text(&self.durable),
            },
        )
    }
}

/// What `send` does with a message.
#[derive(Debug)]
pub enum SendPlan {
    /// Publish through the broker these flags select, to the given topic,
    /// if there is one (without one the command fails once connected).
    Publish { broker: BrokerArgs, topic: Option<String> },
    /// No broker named: stage the message in the local inbox with this
    /// source topic.
    Stage { source: String },
}

/// The topic a message staged without broker goes to when none is given.
pub open spec fn local_topic() -> Seq<char> {
    "local"@
}

/// Decides what `send` does: with broker flags that name a URL, publish
/// to the given topic, or else to the flags' queue or subject; with none,
/// stage locally under the given topic, or `local`.
pub fn plan_send(topic: Option<String>, broker: &Option<BrokerArgsOpt>) -> (p: SendPlan)
    ensures
        match p {
            SendPlan::Publish { broker: b, topic: t } => {
                &&& broker matches Some(flags)
                &&& !(flags@.amqp_url is None && flags@.nats_url is None)
                &&& b@ == flags@
                &&& opt_view(t) == (if topic is Some {
                    opt_view(topic)
                } else {
                    flags_topic(flags@)
                })
            },
            SendPlan::Stage { source: t } => {
                &&& (broker matches Some(flags) ==> (flags@.amqp_url is None
                    && flags@.nats_url is None))
                &&& t@ == (match topic {
                    Some(x) => x@,
                    None => local_topic(),
                })
            },
        },
{
    let required = match broker {
        Some(flags) => flags.as_required(),
        None => None,
    };
    match required {
        Some(b) => {
            let t = match topic {
                Some(x) => Some(x),
                None => match b.default_topic() {
                    Some(d) => Some(d.to_owned()),
                    None => None,
                },
            };
            SendPlan::Publish { broker: b, topic: t }
        },
        None => {
            let t = match topic {
                Some(x) => x,
                None => "local".to_owned(),
            };
            SendPlan::Stage { source: t }
        },
    }
}

/// The id of a message staged without broker: `local-` and the time stamp
/// in nanoseconds.
pub open spec fn local_id_text(nanos: nat) -> Seq<char> {
    "local-"@ + decimal(nanos)
}

/// The id of a message staged without broker, from a time stamp in
/// nanoseconds.
pub fn local_message_id(nanos: u128) -> (r: String)
    ensures
        r@ == local_id_text(nanos as nat),
{
    let mut s = "local-".to_owned();
    push_decimal(&mut s, nanos);
    s
}

/// The views of broker flags read each field from the field of the same
/// name.
pub proof fn lemma_flags_views(a: BrokerArgs, o: BrokerArgsOpt)
    ensures
        a@.amqp_url == opt_view(a.amqp_url),
        a@.queue == opt_view(a.queue),
        a@.nats_url == opt_view(a.nats_url),
        a@.subject == opt_view(a.subject),
        a@.durable == a.durable@,
        o@.amqp_url == opt_view(o.amqp_url),
        o@.queue == opt_view(o.queue),
        o@.nats_url == opt_view(o.nats_url),
        o@.subject == opt_view(o.subject),
        o@.durable == o.durable@,
{
}

/// The default topic is the queue whenever one is given, whatever broker
/// URL is set, and the subject otherwise.
pub proof fn lemma_flags_topic(a: BrokerArgsModel)
    ensures
        a.queue matches Some(q) ==> flags_topic(a) == Some(q),
        a.queue is None ==> flags_topic(a) == a.subject,
{
}

/// Which broker a set of flags selects, case by case: both URLs or neither
/// is an error; a RabbitMQ URL takes the queue (and is an error without
/// one); a NATS URL takes the subject and the durable name (and is an error
/// without a subject).
pub proof fn lemma_target_cases(a: BrokerArgsModel)
    ensures
        (a.amqp_url is Some && a.nats_url is Some) ==> target_of(a) == Err::<
            (bool, Seq<char>, Seq<char>, Seq<char>),
            _,
        >(ConfigError::BothBrokers),
        (a.amqp_url is None && a.nats_url is None) ==> target_of(a) == Err::<
            (bool, Seq<char>, Seq<char>, Seq<char>),
            _,
        >(ConfigError::NoBroker),
        (a.amqp_url is Some && a.nats_url is None) ==> match a.queue {
            Some(q) => target_of(a) == Ok::<_, ConfigError>((true, a.amqp_url->0, q, Seq::<char>::empty())),
            None => target_of(a) == Err::<(bool, Seq<char>, Seq<char>, Seq<char>), _>(
                ConfigError::QueueRequired,
            ),
        },
        (a.nats_url is Some && a.amqp_url is None) ==> match a.subject {
            Some(sub) => target_of(a) == Ok::<_, ConfigError>((false, a.nats_url->0, sub, a.durable)),
            None => target_of(a) == Err::<(bool, Seq<char>, Seq<char>, Seq<char>), _>(
                ConfigError::SubjectRequired,
            ),
        },
{
}

/// A target's view names its kind, URL, queue or subject, and durable name.
pub proof fn lemma_target_view(t: BrokerTarget)
    ensures
        match t {
            BrokerTarget::RabbitMq { url, queue } => target_view(t) == (
                true,
                url@,
                queue@,
                Seq::<char>::empty(),
            ),
            BrokerTarget::Nats { url, subject, durable } => target_view(t) == (
                false,
                url@,
                subject@,
                durable@,
            ),
        },
{
}

/// A local id is `local-` followed by decimal digits that denote the time
/// stamp; a message staged without topic goes under `local`.
pub proof fn lemma_local_texts(nanos: nat)
    ensures
        local_id_text(nanos).len() > 6,
        local_id_text(nanos).take(6) == seq!['l', 'o', 'c', 'a', 'l', '-'],
        forall|k: int|
            6 <= k < local_id_text(nanos).len() ==> 48 <= (#[trigger] local_id_text(nanos)[k] as int)
                <= 57,
        digits_value(local_id_text(nanos).skip(6)) == nanos,
        local_topic() == seq!['l', 'o', 'c', 'a', 'l'],
{
    reveal_strlit("local-");
    reveal_strlit("local");
    lemma_decimal_denotes(nanos);
    let t = local_id_text(nanos);
    assert(t.skip(6) =~= decimal(nanos));
    assert(t.take(6) =~= seq!['l', 'o', 'c', 'a', 'l', '-']);
    assert(local_topic() =~= seq!['l', 'o', 'c', 'a', 'l']);
    assert forall|k: int| 6 <= k < t.len() implies 48 <= (#[trigger] t[k] as int) <= 57 by {
        assert(t[k] == decimal(nanos)[k - 6]);
    }
}

} // verus!
