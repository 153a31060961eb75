//! What this side does with a message pulled from a broker before it is
//! staged: which id it is filed under, how its payload becomes text, and the
//! bookkeeping of one drain (how many were pulled, how many were new).

use vstd::prelude::*;
use vstd::string::*;
use vstd::utf8::{valid_utf8, decode_utf8};
use crate::text::push_char;

verus! {

/// A message pulled from the broker, not yet in the local ledger.
#[derive(Debug)]
pub struct BrokerMessage {
    pub id: String,
    pub source: String,
    pub body: String,
}

/// The mathematical content of a broker message.
pub struct BrokerMessageModel {
    pub id: Seq<char>,
    pub source: Seq<char>,
    pub body: Seq<char>,
}

impl View for BrokerMessage {
    type V = BrokerMessageModel;

    open spec fn view(&self) -> BrokerMessageModel {
        BrokerMessageModel { id: self.id@, source: self.source@, body: self.body@ }
    }
}

/// The view of a broker message reads each field from the field of the
/// same name.
pub proof fn lemma_broker_message_view(m: BrokerMessage)
    ensures
        m@.id == m.id@,
        m@.source == m.source@,
        m@.body == m.body@,
{
}

/// A lower-case hexadecimal digit.
pub open spec fn is_lower_hex(c: char) -> bool {
    ||| 48 <= (c as int) <= 57
    ||| 97 <= (c as int) <= 102
}

/// The hyphenated lower-case text of a version-4 (random) UUID, such as
/// `67e55044-10b1-426f-9247-bb680e5fe0c8`: 36 characters, hyphens at
/// positions 8, 13, 18 and 23, hex digits elsewhere, version digit `4`, and
/// a variant digit among `8`, `9`, `a`, `b`.
pub open spec fn is_uuid_v4_text(s: Seq<char>) -> bool {
    &&& s.len() == 36
    &&& forall|k: int|
        0 <= k < 36 ==> if k == 8 || k == 13 || k == 18 || k == 23 {
            #[trigger] s[k] == '-'
        } else {
            is_lower_hex(s[k])
        }
    &&& s[14] == '4'
    &&& (s[19] == '8' || s[19] == '9' || s[19] == 'a' || s[19] == 'b')
}

/// A fresh random message id.
///
/// Calls `uuid::Uuid::new_v4` and renders the UUID with its `Display` impl,
/// which writes the hyphenated lower-case form. The contract claims only the
/// shape of that text; which UUID comes out is chance. `new_v4` panics when
/// the operating system's random source fails, which depends on the machine
/// and not on any input.
#[verifier::external_body]
fn fresh_uuid() -> (r: String)
    ensures
        is_uuid_v4_text(r@),
{
    uuid::Uuid::new_v4().to_string()
}

/// The text that `String::from_utf8_lossy` makes of `bytes`.
pub uninterp spec fn utf8_lossy(bytes: Seq<u8>) -> Seq<char>;

/// Decodes a payload as UTF-8, each invalid sequence becoming U+FFFD.
///
/// Calls `String::from_utf8_lossy` and takes the owned text. The contract
/// names the result, and states what the documentation gives: valid UTF-8
/// comes back decoded as it is.
#[verifier::external_body]
fn decode_lossy(bytes: &[u8]) -> (r: String)
    ensures
        r@ == utf8_lossy(bytes@),
        valid_utf8(bytes@) ==> r@ == decode_utf8(bytes@),
{
    String::from_utf8_lossy(bytes).into_owned()
}

/// The id a pulled message is filed under: the id the broker carried with
/// it, or a fresh random UUID when it carried none.
pub fn message_id(carried: Option<String>) -> (r: String)
    ensures
        match carried {
            Some(h) => r@ == h@,
            None => is_uuid_v4_text(r@),
        },
{
    match carried {
        Some(h) => h,
        None => fresh_uuid(),
    }
}

/// The broker message for a pulled payload from `source`: filed under the
/// carried id (or a fresh UUID), with the payload decoded lossily as UTF-8.
pub fn broker_message(carried: Option<String>, payload: &[u8], source: &str) -> (m: BrokerMessage)
    ensures
        m@.source == source@,
        m@.body == utf8_lossy(payload@),
        valid_utf8(payload@) ==> m@.body == decode_utf8(payload@),
        match carried {
            Some(h) => m@.id == h@,
            None => is_uuid_v4_text(m@.id),
        },
{
    let id = message_id(carried);
    BrokerMessage { id, source: source.to_owned(), body: decode_lossy(payload) }
}

/// A subject with every `.` replaced by `_`.
pub open spec fn dots_to_underscores(s: Seq<char>) -> Seq<char> {
    s.map_values(|c: char| if c == '.' { '_' } else { c })
}

/// The JetStream stream name for a subject: the subject with its dots
/// replaced by underscores.
pub fn stream_name(subject: &str) -> (r: String)
    ensures
        r@ == dots_to_underscores(subject@),
        r@.len() == subject@.len(),
        forall|k: int|
            0 <= k < subject@.len() ==> (if subject@[k] == '.' {
                #[trigger] r@[k] == '_'
            } else {
                r@[k] == subject@[k]
            }),
{
    let n = subject.unicode_len();
    let mut out = String::new();
    let mut i: usize = 0;
    while i < n
        invariant
            n == subject@.len(),
            i <= n,
            out@ == dots_to_underscores(subject@.take(i as int)),
        decreases n - i,
    {
        let c = subject.get_char(i);
        let mapped = if c == '.' { '_' } else { c };
        push_char(&mut out, mapped);
        assert(subject@.take(i as int + 1) =~= subject@.take(i as int).push(c));
        assert(dots_to_underscores(subject@.take(i as int + 1)) =~= dots_to_underscores(
            subject@.take(i as int),
        ).push(mapped));
        i = i + 1;
    }
    assert(subject@.take(n as int) =~= subject@);
    proof {
        lemma_dots_to_underscores(subject@);
    }
    out
}

/// Only dots are rewritten: the stream name has the subject's length, a
/// `_` where the subject has a `.`, and the subject's character everywhere
/// else.
pub proof fn lemma_dots_to_underscores(s: Seq<char>)
    ensures
        dots_to_underscores(s).len() == s.len(),
        forall|k: int|
            0 <= k < s.len() ==> (if s[k] == '.' {
                #[trigger] dots_to_underscores(s)[k] == '_'
            } else {
                dots_to_underscores(s)[k] == s[k]
            }),
{
}

/// What the broker is told about a pulled message.
#[derive(Clone, Copy, Debug, PartialEq, Eq, Structural)]
pub enum BrokerReply {
    /// Acknowledge: the message is durably in the ledger.
    Ack,
    /// Refuse it for redelivery, and stop draining.
    NackAndStop,
}

/// The bookkeeping of one drain: at most `max` messages are pulled; each
/// one staged is counted, and those that were new to the ledger are counted
/// apart.
pub struct DrainProgress {
    max: usize,
    drained: usize,
    newly_enqueued: usize,
}

impl DrainProgress {
    /// The most messages this drain pulls.
    pub closed spec fn spec_max(&self) -> nat {
        self.max as nat
    }

    /// The messages staged and acknowledged so far.
    pub closed spec fn spec_drained(&self) -> nat {
        self.drained as nat
    }

    /// The staged messages that were new to the ledger.
    pub closed spec fn spec_newly_enqueued(&self) -> nat {
        self.newly_enqueued as nat
    }

    /// The counts are in order: new ones among the drained, the drained
    /// within the limit.
    pub open spec fn wf(&self) -> bool {
        self.spec_newly_enqueued() <= self.spec_drained() <= self.spec_max()
    }

    /// A drain of at most `max` messages, nothing pulled yet.
    pub fn new(max: usize) -> (d: DrainProgress)
        ensures
            d.wf(),
            d.spec_max() == max,
            d.spec_drained() == 0,
            d.spec_newly_enqueued() == 0,
    {
        DrainProgress { max, drained: 0, newly_enqueued: 0 }
    }

    /// Whether another message may be pulled.
    pub fn wants_more(&self) -> (b: bool)
        ensures
            b == (self.spec_drained() < self.spec_max()),
    {
        self.drained < self.max
    }

    /// Decides the broker's answer for a pulled message once staging was
    /// tried: `staged` is `Some(newly_added)` when the message is now in the
    /// ledger (new or already there), `None` when staging failed. A staged
    /// message within the drain's limit is acknowledged and counted; any
    /// other is refused for redelivery and the drain stops, its counts
    /// unchanged. So a message is acknowledged only once it is staged and
    /// counted here.
    pub fn after_staging(&mut self, staged: Option<bool>) -> (reply: BrokerReply)
        requires
            old(self).wf(),
        ensures
            final(self).wf(),
            final(self).spec_max() == old(self).spec_max(),
            reply == BrokerReply::Ack <==> (staged is Some && old(self).spec_drained()
                < old(self).spec_max()),
            match staged {
                Some(newly_added) if old(self).spec_drained() < old(self).spec_max() => {
                    &&& final(self).spec_drained() == old(self).spec_drained() + 1
                    &&& final(self).spec_newly_enqueued() == old(self).spec_newly_enqueued()
                        + if newly_added {
                        1nat
                    } else {
                        0nat
                    }
                },
                _ => {
                    &&& reply == BrokerReply::NackAndStop
                    &&& final(self).spec_drained() == old(self).spec_drained()
                    &&& final(self).spec_newly_enqueued() == old(self).spec_newly_enqueued()
                },
            },
    {
        match staged {
            Some(newly_added) => {
                if self.drained < self.max {
                    self.drained = self.drained + 1;
                    if newly_added {
                        self.newly_enqueued = self.newly_enqueued + 1;
                    }
                    BrokerReply::Ack
                } else {
                    BrokerReply::NackAndStop
                }
            },
            None => BrokerReply::NackAndStop,
        }
    }

    /// The messages staged and acknowledged so far.
    pub fn drained(&self) -> (n: usize)
        ensures
            n == self.spec_drained(),
    {
        self.drained
    }

    /// The staged messages that were new to the ledger.
    pub fn newly_enqueued(&self) -> (n: usize)
        ensures
            n == self.spec_newly_enqueued(),
    {
        self.newly_enqueued
    }
}

} // verus!
