//! The inbox ledger: every message that reached this side, its claim and
//! lease, and its delivery. Messages are staged once (a redelivered id
//! changes nothing), claimed oldest first by one session at a time under a
//! lease, reclaimable once that lease has run out, and marked delivered only
//! by the session that holds the lease, while the lease lasts. Every
//! operation keeps message ids distinct, keeps each row's claim fields in
//! agreement with its status, and moves a row only forward: pending to
//! leased, leased to leased (a reclaim) or to delivered, which is final.
//!
//! Timestamps are texts in one fixed format (`YYYY-MM-DD HH:MM:SS`), so that
//! their byte-wise text order is their order in time; the clock is read by
//! the caller and handed in.

use vstd::prelude::*;
use crate::text::{signed_decimal, text_equal, text_less, text_lt, push_char, push_signed_decimal, lemma_text_lt_irreflexive, lemma_text_lt_transitive};

verus! {

/// Where a message stands in the ledger.
#[derive(Clone, Copy, Debug, PartialEq, Eq, Structural)]
pub enum Status {
    /// Staged, never claimed.
    Pending,
    /// Claimed by a session, under a lease.
    Leased,
    /// Acknowledged by its lease holder; final.
    Delivered,
}

/// The text under which a status is stored.
pub open spec fn status_text(s: Status) -> Seq<char> {
    match s {
        Status::Pending => "pending"@,
        Status::Leased => "leased"@,
        Status::Delivered => "delivered"@,
    }
}

impl Status {
    /// The stored text of this status.
    pub fn as_str(&self) -> (r: &'static str)
        ensures
            r@ == status_text(*self),
    {
        match self {
            Status::Pending => "pending",
            Status::Leased => "leased",
            Status::Delivered => "delivered",
        }
    }

    /// The status stored as `t`, if `t` is the text of one.
    pub fn from_text(t: &str) -> (r: Option<Status>)
        ensures
            match r {
                Some(s) => t@ == status_text(s),
                None => forall|s: Status| t@ != #[trigger] status_text(s),
            },
    {
        if text_equal(t, "pending") {
            Some(Status::Pending)
        } else if text_equal(t, "leased") {
            Some(Status::Leased)
        } else if text_equal(t, "delivered") {
            Some(Status::Delivered)
        } else {
            proof {
                assert forall|s: Status| t@ != #[trigger] status_text(s) by {
                    match s {
                        Status::Pending => {},
                        Status::Leased => {},
                        Status::Delivered => {},
                    }
                }
            }
            None
        }
    }
}

/// The view of an optional text.
pub open spec fn opt_view(o: Option<String>) -> Option<Seq<char>> {
    match o {
        Some(s) => Some(s@),
        None => None,
    }
}

/// One row of the inbox.
#[derive(Debug)]
pub struct InboxRow {
    pub msg_id: String,
    pub source: String,
    pub body: String,
    pub received_at: String,
    pub status: Status,
    pub claimed_by: Option<String>,
    pub lease_expires_at: Option<String>,
}

/// The mathematical content of an inbox row.
pub struct RowModel {
    pub msg_id: Seq<char>,
    pub source: Seq<char>,
    pub body: Seq<char>,
    pub received_at: Seq<char>,
    pub status: Status,
    pub claimed_by: Option<Seq<char>>,
    pub lease_expires_at: Option<Seq<char>>,
}

impl View for InboxRow {
    type V = RowModel;

    open spec fn view(&self) -> RowModel {
        RowModel {
            msg_id: self.msg_id@,
            source: self.source@,
            body: self.body@,
            received_at: self.received_at@,
            status: self.status,
            claimed_by: opt_view(self.claimed_by),
            lease_expires_at: opt_view(self.lease_expires_at),
        }
    }
}

/// A claimed message, as handed to the agent.
#[derive(Debug)]
pub struct Message {
    pub id: String,
    pub source: String,
    pub body: String,
    pub received_at: String,
    pub lease_expires_at: Option<String>,
}

/// The mathematical content of a claimed message.
pub struct MessageModel {
    pub id: Seq<char>,
    pub source: Seq<char>,
    pub body: Seq<char>,
    pub received_at: Seq<char>,
    pub lease_expires_at: Option<Seq<char>>,
}

impl View for Message {
    type V = MessageModel;

    open spec fn view(&self) -> MessageModel {
        MessageModel {
            id: self.id@,
            source: self.source@,
            body: self.body@,
            received_at: self.received_at@,
            lease_expires_at: opt_view(self.lease_expires_at),
        }
    }
}

// ---------------------------------------------------------------------------
// The model of the ledger and its transitions.

/// No two rows share a message id.
pub open spec fn distinct_ids(rows: Seq<RowModel>) -> bool {
    forall|i: int, j: int|
        0 <= i < rows.len() && 0 <= j < rows.len() && i != j ==> #[trigger] rows[i].msg_id
            != #[trigger] rows[j].msg_id
}

/// Some row carries message id `id`.
pub open spec fn has_id(rows: Seq<RowModel>, id: Seq<char>) -> bool {
    exists|k: int| 0 <= k < rows.len() && #[trigger] rows[k].msg_id == id
}

/// The row that staging a new message adds.
pub open spec fn staged_row(
    id: Seq<char>,
    source: Seq<char>,
    body: Seq<char>,
    now: Seq<char>,
) -> RowModel {
    RowModel {
        msg_id: id,
        source,
        body,
        received_at: now,
        status: Status::Pending,
        claimed_by: None,
        lease_expires_at: None,
    }
}

/// The ledger after staging a message: unchanged when its id is already
/// there, else with one pending row added at the end.
pub open spec fn after_enqueue(
    rows: Seq<RowModel>,
    id: Seq<char>,
    source: Seq<char>,
    body: Seq<char>,
    now: Seq<char>,
) -> Seq<RowModel> {
    if has_id(rows, id) {
        rows
    } else {
        rows.push(staged_row(id, source, body, now))
    }
}

/// The row's lease ran out before `now`: it records a lease end that sorts
/// strictly before `now`. A row with no recorded lease end never runs out.
pub open spec fn lease_ran_out(r: RowModel, now: Seq<char>) -> bool {
    match r.lease_expires_at {
        Some(t) => text_lt(t, now),
        None => false,
    }
}

/// A row may be claimed at time `now`: it is pending, or leased with a
/// lease that ran out strictly before `now`.
pub open spec fn claimable(r: RowModel, now: Seq<char>) -> bool {
    match r.status {
        Status::Pending => true,
        Status::Leased => lease_ran_out(r, now),
        Status::Delivered => false,
    }
}

/// Row `i` is the one a claim at time `now` takes: a claimable row whose
/// receipt time no claimable row precedes, and the first such in the ledger.
pub open spec fn is_claim_choice(rows: Seq<RowModel>, now: Seq<char>, i: int) -> bool {
    &&& 0 <= i < rows.len()
    &&& claimable(rows[i], now)
    &&& forall|j: int|
        0 <= j < rows.len() && claimable(rows[j], now) ==> !text_lt(
            #[trigger] rows[j].received_at,
            rows[i].received_at,
        )
    &&& forall|j: int|
        0 <= j < i && claimable(rows[j], now) ==> #[trigger] rows[j].received_at
            != rows[i].received_at
}

/// Some row may be claimed at time `now`.
pub open spec fn any_claimable(rows: Seq<RowModel>, now: Seq<char>) -> bool {
    exists|j: int| 0 <= j < rows.len() && #[trigger] claimable(rows[j], now)
}

/// A row after `session` leases it until `until` (no end recorded when
/// `until` is `None`, as when the clock could not compute one).
pub open spec fn leased(r: RowModel, session: Seq<char>, until: Option<Seq<char>>) -> RowModel {
    RowModel {
        status: Status::Leased,
        claimed_by: Some(session),
        lease_expires_at: until,
        ..r
    }
}

/// The view of an optional borrowed text.
pub open spec fn opt_str_view(o: Option<&str>) -> Option<Seq<char>> {
    match o {
        Some(s) => Some(s@),
        None => None,
    }
}

/// The message handed out for a claimed row; it reports no lease end.
pub open spec fn message_of(r: RowModel) -> MessageModel {
    MessageModel {
        id: r.msg_id,
        source: r.source,
        body: r.body,
        received_at: r.received_at,
        lease_expires_at: None,
    }
}

/// An acknowledgement of `id` by `session` at time `now` applies to this
/// row: it is that message, leased, `session` holds the lease, and the lease
/// has not run out.
pub open spec fn ackable(r: RowModel, id: Seq<char>, session: Seq<char>, now: Seq<char>) -> bool {
    &&& r.msg_id == id
    &&& r.status == Status::Leased
    &&& r.claimed_by == Some(session)
    &&& !lease_ran_out(r, now)
}

/// A row after its acknowledgement: delivered, with no lease.
pub open spec fn delivered(r: RowModel) -> RowModel {
    RowModel { status: Status::Delivered, lease_expires_at: None, ..r }
}

/// The ledger after `session` acknowledges `id` at time `now`: each row the
/// acknowledgement applies to is delivered, the others stay.
pub open spec fn after_ack(
    rows: Seq<RowModel>,
    id: Seq<char>,
    session: Seq<char>,
    now: Seq<char>,
) -> Seq<RowModel> {
    Seq::new(
        rows.len(),
        |k: int|
            if ackable(rows[k], id, session, now) {
                delivered(rows[k])
            } else {
                rows[k]
            },
    )
}

/// The acknowledgement of `id` by `session` at time `now` applies to some row.
pub open spec fn any_ackable(
    rows: Seq<RowModel>,
    id: Seq<char>,
    session: Seq<char>,
    now: Seq<char>,
) -> bool {
    exists|k: int| 0 <= k < rows.len() && #[trigger] ackable(rows[k], id, session, now)
}

/// One row's claim fields agree with its status: a pending row has no
/// claimant and no lease, a leased row has a claimant, a delivered row keeps
/// its claimant and has no lease.
pub open spec fn row_consistent(r: RowModel) -> bool {
    match r.status {
        Status::Pending => r.claimed_by is None && r.lease_expires_at is None,
        Status::Leased => r.claimed_by is Some,
        Status::Delivered => r.claimed_by is Some && r.lease_expires_at is None,
    }
}

/// Every row's claim fields agree with its status.
pub open spec fn consistent(rows: Seq<RowModel>) -> bool {
    forall|k: int| 0 <= k < rows.len() ==> #[trigger] row_consistent(rows[k])
}

/// A row may become `b` from `a` in one operation: the message itself (id,
/// source, body, receipt time) stays, and the status stays or moves pending
/// to leased, leased to leased (a reclaim), or leased to delivered.
/// Delivered is final.
pub open spec fn row_step(a: RowModel, b: RowModel) -> bool {
    &&& b.msg_id == a.msg_id
    &&& b.source == a.source
    &&& b.body == a.body
    &&& b.received_at == a.received_at
    &&& (a == b || match a.status {
        Status::Pending => b.status == Status::Leased,
        Status::Leased => b.status == Status::Leased || b.status == Status::Delivered,
        Status::Delivered => false,
    })
}

/// The ledger `new` follows from `old` by one operation: no row goes away,
/// rows keep their places, and each kept row takes an allowed step.
pub open spec fn evolves(old: Seq<RowModel>, new: Seq<RowModel>) -> bool {
    &&& old.len() <= new.len()
    &&& forall|k: int| 0 <= k < old.len() ==> #[trigger] row_step(old[k], new[k])
}

// ---------------------------------------------------------------------------
// The ledger itself.

/// The inbox ledger, held as its rows in ledger order.
pub struct Store {
    rows: Vec<InboxRow>,
}

impl View for Store {
    type V = Seq<RowModel>;

    closed spec fn view(&self) -> Seq<RowModel> {
        self.rows@.map_values(|r: InboxRow| r@)
    }
}

/// A copy of a text.
pub fn clone_text(s: &String) -> (r: String)
    ensures
        r@ == s@,
{
    s.clone()
}

/// A copy of an optional text.
pub fn clone_opt_text(o: &Option<String>) -> (r: Option<String>)
    ensures
        opt_view(r) == opt_view(*o),
{
    match o {
        Some(s) => Some(s.clone()),
        None => None,
    }
}

/// Decides `claimable(r@, now@)`.
pub fn is_claimable(r: &InboxRow, now: &str) -> (b: bool)
    ensures
        b == claimable(r@, now@),
{
    match r.status {
        Status::Pending => true,
        Status::Leased => match &r.lease_expires_at {
            Some(t) => text_less(t.as_str(), now),
            None => false,
        },
        Status::Delivered => false,
    }
}

/// The SQLite date modifier that places a lease's end `lease_secs` seconds
/// after now: `+<seconds> seconds`.
pub open spec fn lease_modifier(lease_secs: int) -> Seq<char> {
    seq!['+'] + signed_decimal(lease_secs) + " seconds"@
}

/// The SQLite date modifier for a lease of `lease_secs` seconds.
pub fn lease_modifier_text(lease_secs: i64) -> (r: String)
    ensures
        r@ == lease_modifier(lease_secs as int),
{
    let mut s = String::new();
    push_char(&mut s, '+');
    push_signed_decimal(&mut s, lease_secs);
    s.append(" seconds");
    assert(s@ =~= lease_modifier(lease_secs as int));
    s
}

impl Store {
    /// The ledger is well formed: no two rows share a message id.
    pub open spec fn wf(&self) -> bool {
        distinct_ids(self@)
    }

    /// An empty ledger.
    pub fn new() -> (st: Store)
        ensures
            st.wf(),
            st@ == Seq::<RowModel>::empty(),
    {
        let st = Store { rows: Vec::new() };
        assert(st@ =~= Seq::<RowModel>::empty());
        st
    }

    /// The number of rows.
    pub fn len(&self) -> (n: usize)
        ensures
            n == self@.len(),
    {
        self.rows.len()
    }

    /// The position of the row with message id `msg_id`, if there is one.
    pub fn position(&self, msg_id: &str) -> (r: Option<usize>)
        ensures
            match r {
                Some(i) => i < self@.len() && self@[i as int].msg_id == msg_id@,
                None => !has_id(self@, msg_id@),
            },
    {
        let n = self.rows.len();
        let mut i: usize = 0;
        while i < n
            invariant
                n == self.rows@.len(),
                self@ == self.rows@.map_values(|r: InboxRow| r@),
                i <= n,
                forall|k: int| 0 <= k < i ==> #[trigger] self@[k].msg_id != msg_id@,
            decreases n - i,
        {
            if text_equal(self.rows[i].msg_id.as_str(), msg_id) {
                return Some(i);
            }
            i = i + 1;
        }
        None
    }

    /// A ledger holding `rows` in that order, provided no two of them share
    /// a message id.
    pub fn from_rows(rows: Vec<InboxRow>) -> (r: Option<Store>)
        ensures
            r is Some <==> distinct_ids(rows@.map_values(|x: InboxRow| x@)),
            match r {
                Some(st) => st.wf() && st@ == rows@.map_values(|x: InboxRow| x@),
                None => true,
            },
    {
        let ghost model = rows@.map_values(|x: InboxRow| x@);
        let n = rows.len();
        let mut i: usize = 0;
        while i < n
            invariant
                n == rows@.len(),
                model == rows@.map_values(|x: InboxRow| x@),
                i <= n,
                forall|a: int, b: int|
                    0 <= a < i && 0 <= b < n && a != b ==> #[trigger] model[a].msg_id
                        != #[trigger] model[b].msg_id,
            decreases n - i,
        {
            let mut j: usize = 0;
            while j < n
                invariant
                    n == rows@.len(),
                    model == rows@.map_values(|x: InboxRow| x@),
                    i < n,
                    j <= n,
                    forall|a: int, b: int|
                        0 <= a < i && 0 <= b < n && a != b ==> #[trigger] model[a].msg_id
                            != #[trigger] model[b].msg_id,
                    forall|b: int| 0 <= b < j && b != i ==> model[i as int].msg_id != #[trigger] model[b].msg_id,
                decreases n - j,
            {
                if j != i && text_equal(rows[i].msg_id.as_str(), rows[j].msg_id.as_str()) {
                    assert(model[i as int].msg_id == model[j as int].msg_id);
                    return None;
                }
                j = j + 1;
            }
            i = i + 1;
        }
        let st = Store { rows };
        assert(st@ == model);
        Some(st)
    }

    /// Stages a message under `msg_id`, received at `now`. A message whose id
    /// is already in the ledger (a redelivery) changes nothing. Returns
    /// whether a row was added.
    pub fn enqueue(&mut self, msg_id: &str, source: &str, body: &str, now: &str) -> (inserted: bool)
        requires
            old(self).wf(),
        ensures
            final(self).wf(),
            inserted == !has_id(old(self)@, msg_id@),
            final(self)@ == after_enqueue(old(self)@, msg_id@, source@, body@, now@),
            !inserted ==> final(self)@ == old(self)@,
            inserted ==> {
                &&& final(self)@.len() == old(self)@.len() + 1
                &&& final(self)@.take(old(self)@.len() as int) == old(self)@
                &&& final(self)@.last().msg_id == msg_id@
                &&& final(self)@.last().source == source@
                &&& final(self)@.last().body == body@
                &&& final(self)@.last().received_at == now@
                &&& final(self)@.last().status == Status::Pending
                &&& final(self)@.last().claimed_by is None
                &&& final(self)@.last().lease_expires_at is None
            },
            evolves(old(self)@, final(self)@),
            consistent(old(self)@) ==> consistent(final(self)@),
    {
        match self.position(msg_id) {
            Some(i) => {
                assert(self@[i as int].msg_id == msg_id@);
                assert(evolves(self@, self@)) by {
                    assert forall|k: int| 0 <= k < self@.len() implies #[trigger] row_step(self@[k], self@[k]) by {}
                }
                false
            },
            None => {
                let ghost before = self@;
                let row = InboxRow {
                    msg_id: msg_id.to_owned(),
                    source: source.to_owned(),
                    body: body.to_owned(),
                    received_at: now.to_owned(),
                    status: Status::Pending,
                    claimed_by: None,
                    lease_expires_at: None,
                };
                self.rows.push(row);
                assert(self@ =~= before.push(staged_row(msg_id@, source@, body@, now@)));
                assert(self@.take(before.len() as int) =~= before);
                assert(evolves(before, self@)) by {
                    assert forall|k: int| 0 <= k < before.len() implies #[trigger] row_step(before[k], self@[k]) by {
                        assert(self@[k] == before[k]);
                    }
                }
                proof {
                    if consistent(before) {
                        assert forall|k: int| 0 <= k < self@.len() implies #[trigger] row_consistent(self@[k]) by {
                            if k < before.len() {
                                assert(self@[k] == before[k]);
                            }
                        }
                    }
                }
                assert(distinct_ids(self@)) by {
                    assert forall|a: int, b: int|
                        0 <= a < self@.len() && 0 <= b < self@.len() && a != b implies #[trigger] self@[a].msg_id
                            != #[trigger] self@[b].msg_id by {
                        if a == before.len() {
                            assert(before[b].msg_id == self@[b].msg_id);
                        } else if b == before.len() {
                            assert(before[a].msg_id == self@[a].msg_id);
                        }
                    }
                }
                true
            },
        }
    }

    /// The position of the row a claim at time `now` takes, if any.
    fn choose_claim(&self, now: &str) -> (r: Option<usize>)
        ensures
            match r {
                Some(i) => is_claim_choice(self@, now@, i as int),
                None => !any_claimable(self@, now@),
            },
    {
        let n = self.rows.len();
        let mut best: Option<usize> = None;
        let mut i: usize = 0;
        while i < n
            invariant
                n == self.rows@.len(),
                self@ == self.rows@.map_values(|r: InboxRow| r@),
                i <= n,
                match best {
                    Some(b) => {
                        &&& b < i
                        &&& claimable(self@[b as int], now@)
                        &&& forall|j: int|
                            0 <= j < i && claimable(self@[j], now@) ==> !text_lt(
                                #[trigger] self@[j].received_at,
                                self@[b as int].received_at,
                            )
                        &&& forall|j: int|
                            0 <= j < b && claimable(self@[j], now@) ==> #[trigger] self@[j].received_at
                                != self@[b as int].received_at
                    },
                    None => forall|j: int| 0 <= j < i ==> !#[trigger] claimable(self@[j], now@),
                },
            decreases n - i,
        {
            let row = &self.rows[i];
            assert(self@[i as int] == row@);
            if is_claimable(row, now) {
                match best {
                    None => {
                        best = Some(i);
                        proof {
                            lemma_text_lt_irreflexive(self@[i as int].received_at, 0);
                        }
                    },
                    Some(b) => {
                        let current = &self.rows[b];
                        assert(self@[b as int] == current@);
                        if text_less(row.received_at.as_str(), current.received_at.as_str()) {
                            proof {
                                let ni = i as int;
                                assert forall|j: int|
                                    0 <= j < i + 1 && claimable(self@[j], now@) implies !text_lt(
                                        #[trigger] self@[j].received_at,
                                        self@[ni].received_at,
                                    ) by {
                                    if j == ni {
                                        lemma_text_lt_irreflexive(self@[ni].received_at, 0);
                                    } else if text_lt(self@[j].received_at, self@[ni].received_at) {
                                        lemma_text_lt_transitive(
                                            self@[j].received_at,
                                            self@[ni].received_at,
                                            self@[b as int].received_at,
                                            0,
                                        );
                                    }
                                }
                                assert forall|j: int|
                                    0 <= j < ni && claimable(self@[j], now@) implies #[trigger] self@[j].received_at
                                        != self@[ni].received_at by {
                                    if self@[j].received_at == self@[ni].received_at {
                                        assert(!text_lt(self@[j].received_at, self@[b as int].received_at));
                                    }
                                }
                            }
                            best = Some(i);
                        }
                    },
                }
            }
            i = i + 1;
        }
        match best {
            Some(b) => {
                assert(is_claim_choice(self@, now@, b as int));
            },
            None => {
                assert(!any_claimable(self@, now@));
            },
        }
        best
    }

    /// Claims the oldest claimable message for `session_id` at time `now`:
    /// the first, in ledger order, of the claimable rows with the earliest
    /// receipt time. Its row becomes leased to `session_id` until
    /// `lease_until` (with no recorded end when that is `None`), and the
    /// message is returned with no lease end reported. With no claimable row
    /// nothing changes.
    pub fn claim_next(&mut self, session_id: &str, now: &str, lease_until: Option<&str>) -> (r: Option<Message>)
        requires
            old(self).wf(),
        ensures
            final(self).wf(),
            evolves(old(self)@, final(self)@),
            consistent(old(self)@) ==> consistent(final(self)@),
            match r {
                None => !any_claimable(old(self)@, now@) && final(self)@ == old(self)@,
                Some(m) => exists|i: int|
                    #[trigger] is_claim_choice(old(self)@, now@, i)
                        && m@ == message_of(old(self)@[i])
                        && final(self)@ == old(self)@.update(i, leased(old(self)@[i], session_id@, opt_str_view(lease_until)))
                        && m@.id == old(self)@[i].msg_id
                        && m@.source == old(self)@[i].source
                        && m@.body == old(self)@[i].body
                        && m@.received_at == old(self)@[i].received_at
                        && m@.lease_expires_at is None
                        && final(self)@[i].status == Status::Leased
                        && final(self)@[i].claimed_by == Some(session_id@)
                        && final(self)@[i].lease_expires_at == opt_str_view(lease_until),
            },
    {
        match self.choose_claim(now) {
            None => {
                assert(evolves(self@, self@)) by {
                    assert forall|k: int| 0 <= k < self@.len() implies #[trigger] row_step(self@[k], self@[k]) by {}
                }
                None
            },
            Some(i) => {
                let ghost before = self@;
                let row = &self.rows[i];
                assert(before[i as int] == row@);
                let message = Message {
                    id: clone_text(&row.msg_id),
                    source: clone_text(&row.source),
                    body: clone_text(&row.body),
                    received_at: clone_text(&row.received_at),
                    lease_expires_at: None,
                };
                let updated = InboxRow {
                    msg_id: clone_text(&row.msg_id),
                    source: clone_text(&row.source),
                    body: clone_text(&row.body),
                    received_at: clone_text(&row.received_at),
                    status: Status::Leased,
                    claimed_by: Some(session_id.to_owned()),
                    lease_expires_at: match lease_until {
                        Some(t) => Some(t.to_owned()),
                        None => None,
                    },
                };
                assert(updated@ == leased(before[i as int], session_id@, opt_str_view(lease_until)));
                self.rows.set(i, updated);
                assert(self@ =~= before.update(i as int, leased(before[i as int], session_id@, opt_str_view(lease_until))));
                assert(distinct_ids(self@)) by {
                    assert forall|a: int, b: int|
                        0 <= a < self@.len() && 0 <= b < self@.len() && a != b implies #[trigger] self@[a].msg_id
                            != #[trigger] self@[b].msg_id by {
                        assert(self@[a].msg_id == before[a].msg_id);
                        assert(self@[b].msg_id == before[b].msg_id);
                    }
                }
                assert(evolves(before, self@)) by {
                    assert forall|k: int| 0 <= k < before.len() implies #[trigger] row_step(before[k], self@[k]) by {
                        if k == i {
                            assert(claimable(before[k], now@));
                        }
                    }
                }
                proof {
                    if consistent(before) {
                        assert forall|k: int| 0 <= k < self@.len() implies #[trigger] row_consistent(self@[k]) by {
                            assert(row_consistent(before[k]));
                        }
                    }
                }
                assert(message@ == message_of(before[i as int]));
                Some(message)
            },
        }
    }

    /// Acknowledges message `msg_id` on behalf of `session_id` at time
    /// `now`: when that message is leased, `session_id` holds the lease and
    /// the lease has not run out before `now`, its row becomes delivered and
    /// loses its lease, and the result is `true`. Otherwise (unknown id, not
    /// leased, leased to another session, or lease run out) nothing changes
    /// and the result is `false`.
    pub fn ack(&mut self, msg_id: &str, session_id: &str, now: &str) -> (acked: bool)
        requires
            old(self).wf(),
        ensures
            final(self).wf(),
            acked == any_ackable(old(self)@, msg_id@, session_id@, now@),
            final(self)@ == after_ack(old(self)@, msg_id@, session_id@, now@),
            acked ==> exists|i: int|
                0 <= i < old(self)@.len() && #[trigger] old(self)@[i].msg_id == msg_id@
                    && old(self)@[i].status == Status::Leased
                    && old(self)@[i].claimed_by == Some(session_id@)
                    && match old(self)@[i].lease_expires_at {
                        Some(t) => !text_lt(t, now@),
                        None => true,
                    }
                    && final(self)@ == old(self)@.update(
                        i,
                        RowModel {
                            status: Status::Delivered,
                            lease_expires_at: None,
                            ..old(self)@[i]
                        },
                    ),
            !acked ==> final(self)@ == old(self)@,
            !acked ==> forall|i: int|
                0 <= i < old(self)@.len() && #[trigger] old(self)@[i].msg_id == msg_id@
                    && old(self)@[i].status == Status::Leased
                    && old(self)@[i].claimed_by == Some(session_id@) ==> match old(
                    self,
                )@[i].lease_expires_at {
                    Some(t) => text_lt(t, now@),
                    None => false,
                },
            evolves(old(self)@, final(self)@),
            consistent(old(self)@) ==> consistent(final(self)@),
    {
        let ghost before = self@;
        proof {
            let after = after_ack(before, msg_id@, session_id@, now@);
            assert forall|k: int| 0 <= k < before.len() implies #[trigger] row_step(before[k], after[k]) by {}
            if consistent(before) {
                assert forall|k: int| 0 <= k < after.len() implies #[trigger] row_consistent(after[k]) by {
                    assert(row_consistent(before[k]));
                }
            }
        }
        match self.position(msg_id) {
            None => {
                assert(before =~= after_ack(before, msg_id@, session_id@, now@));
                false
            },
            Some(i) => {
                let row = &self.rows[i];
                assert(before[i as int] == row@);
                let holder = match &row.claimed_by {
                    Some(c) => text_equal(c.as_str(), session_id),
                    None => false,
                };
                let live = match &row.lease_expires_at {
                    Some(t) => !text_less(t.as_str(), now),
                    None => true,
                };
                if row.status == Status::Leased && holder && live {
                    let updated = InboxRow {
                        msg_id: clone_text(&row.msg_id),
                        source: clone_text(&row.source),
                        body: clone_text(&row.body),
                        received_at: clone_text(&row.received_at),
                        status: Status::Delivered,
                        claimed_by: clone_opt_text(&row.claimed_by),
                        lease_expires_at: None,
                    };
                    assert(updated@ == delivered(before[i as int]));
                    self.rows.set(i, updated);
                    assert(ackable(before[i as int], msg_id@, session_id@, now@));
                    assert(self@ =~= before.update(i as int, delivered(before[i as int])));
                    assert(self@ =~= after_ack(before, msg_id@, session_id@, now@)) by {
                        assert forall|k: int| 0 <= k < before.len() && k != i implies !ackable(before[k], msg_id@, session_id@, now@) by {
                            assert(before[k].msg_id != before[i as int].msg_id);
                        }
                    }
                    assert(distinct_ids(self@)) by {
                        assert forall|a: int, b: int|
                            0 <= a < self@.len() && 0 <= b < self@.len() && a != b implies #[trigger] self@[a].msg_id
                                != #[trigger] self@[b].msg_id by {
                            assert(self@[a].msg_id == before[a].msg_id);
                            assert(self@[b].msg_id == before[b].msg_id);
                        }
                    }
                    true
                } else {
                    assert forall|k: int| 0 <= k < before.len() implies !#[trigger] ackable(before[k], msg_id@, session_id@, now@) by {
                        if k != i {
                            assert(before[k].msg_id != before[i as int].msg_id);
                        }
                    }
                    assert(before =~= after_ack(before, msg_id@, session_id@, now@));
                    false
                }
            },
        }
    }

    /// The row with message id `msg_id`, if there is one.
    pub fn row(&self, msg_id: &str) -> (r: Option<&InboxRow>)
        ensures
            match r {
                Some(row) => exists|i: int|
                    0 <= i < self@.len() && self@[i] == row@ && row@.msg_id == msg_id@,
                None => !has_id(self@, msg_id@),
            },
    {
        match self.position(msg_id) {
            Some(i) => {
                let row = &self.rows[i];
                assert(self@[i as int] == row@);
                Some(row)
            },
            None => None,
        }
    }
}

} // verus!
