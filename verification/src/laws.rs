//! Properties of the ledger that span its operations. They are stated over
//! the ledger's rows as the operations' contracts give them; a `Store`
//! supplies `distinct_ids` through its `wf`.

use vstd::prelude::*;
use crate::store::{
    RowModel, Status, distinct_ids, has_id, after_enqueue, staged_row, claimable, is_claim_choice,
    any_claimable, leased, ackable, any_ackable, delivered, after_ack, lease_ran_out, consistent,
    row_consistent, row_step, evolves, message_of, status_text, lease_modifier, opt_view, InboxRow,
    Message,
};
use crate::text::{text_lt, text_lt_from, signed_decimal, digits_value, lemma_signed_decimal_denotes};

verus! {

/// A redelivered message is a no-op: staging the same id a second time,
/// whatever its source, body or time, leaves the ledger as the first
/// staging left it, and the second staging reports that nothing was added.
pub proof fn lemma_redelivery_is_noop(
    rows: Seq<RowModel>,
    id: Seq<char>,
    source: Seq<char>,
    body: Seq<char>,
    now: Seq<char>,
    source2: Seq<char>,
    body2: Seq<char>,
    now2: Seq<char>,
)
    ensures
        has_id(after_enqueue(rows, id, source, body, now), id),
        after_enqueue(after_enqueue(rows, id, source, body, now), id, source2, body2, now2)
            == after_enqueue(rows, id, source, body, now),
{
    let once = after_enqueue(rows, id, source, body, now);
    if !has_id(rows, id) {
        assert(once[rows.len() as int].msg_id == id);
    }
}

/// Staging keeps message ids distinct.
pub proof fn lemma_enqueue_keeps_ids_distinct(
    rows: Seq<RowModel>,
    id: Seq<char>,
    source: Seq<char>,
    body: Seq<char>,
    now: Seq<char>,
)
    requires
        distinct_ids(rows),
    ensures
        distinct_ids(after_enqueue(rows, id, source, body, now)),
{
    let after = after_enqueue(rows, id, source, body, now);
    if !has_id(rows, id) {
        assert forall|a: int, b: int|
            0 <= a < after.len() && 0 <= b < after.len() && a != b implies #[trigger] after[a].msg_id
                != #[trigger] after[b].msg_id by {
            if a == rows.len() {
                assert(rows[b].msg_id == after[b].msg_id);
            } else if b == rows.len() {
                assert(rows[a].msg_id == after[a].msg_id);
            }
        }
    }
}

/// A delivered message is never handed out again: with distinct ids, a
/// claim at any time takes some other message.
pub proof fn lemma_delivered_never_claimed(rows: Seq<RowModel>, now: Seq<char>, k: int, i: int)
    requires
        distinct_ids(rows),
        0 <= k < rows.len(),
        rows[k].status == Status::Delivered,
        is_claim_choice(rows, now, i),
    ensures
        !claimable(rows[k], now),
        rows[i].msg_id != rows[k].msg_id,
{
}

/// Delivery is final: a row may step from delivered only to itself, and
/// staging, claiming and acknowledging all leave a delivered row as it was.
pub proof fn lemma_delivered_is_final(
    rows: Seq<RowModel>,
    k: int,
    id: Seq<char>,
    source: Seq<char>,
    body: Seq<char>,
    now: Seq<char>,
    i: int,
    session: Seq<char>,
    until: Option<Seq<char>>,
    later: RowModel,
)
    requires
        0 <= k < rows.len(),
        rows[k].status == Status::Delivered,
    ensures
        row_step(rows[k], later) ==> later == rows[k],
        after_enqueue(rows, id, source, body, now)[k] == rows[k],
        after_ack(rows, id, session, now)[k] == rows[k],
        is_claim_choice(rows, now, i) ==> rows.update(i, leased(rows[i], session, until))[k]
            == rows[k],
{
}

/// Delivery lasts over any run of operations: when each ledger follows the
/// one before by an allowed step, a row delivered in the first is the same
/// delivered row in the last.
pub proof fn lemma_delivered_stays_over_runs(runs: Seq<Seq<RowModel>>, k: int)
    requires
        runs.len() > 0,
        forall|j: int| 0 <= j < runs.len() - 1 ==> #[trigger] evolves(runs[j], runs[j + 1]),
        0 <= k < runs[0].len(),
        runs[0][k].status == Status::Delivered,
    ensures
        k < runs.last().len(),
        runs.last()[k] == runs[0][k],
    decreases runs.len(),
{
    if runs.len() > 1 {
        let prefix = runs.drop_last();
        assert forall|j: int| 0 <= j < prefix.len() - 1 implies #[trigger] evolves(prefix[j], prefix[j + 1]) by {
            assert(evolves(runs[j], runs[j + 1]));
        }
        lemma_delivered_stays_over_runs(prefix, k);
        let n = runs.len() - 2;
        assert(evolves(runs[n], runs[n + 1]));
        assert(prefix.last() == runs[n]);
        assert(row_step(runs[n][k], runs[n + 1][k]));
    }
}

/// A lease that has not run out protects its message: while `now` is not
/// past the lease's end, a claim by anyone takes some other message.
pub proof fn lemma_live_lease_blocks_claim(rows: Seq<RowModel>, now: Seq<char>, k: int, i: int)
    requires
        distinct_ids(rows),
        0 <= k < rows.len(),
        rows[k].status == Status::Leased,
        !lease_ran_out(rows[k], now),
        is_claim_choice(rows, now, i),
    ensures
        !claimable(rows[k], now),
        rows[i].msg_id != rows[k].msg_id,
{
}

/// A lease that ran out makes its message claimable again (crash and
/// timeout recovery), so a claim at that time returns some message.
pub proof fn lemma_expired_lease_reclaimable(rows: Seq<RowModel>, now: Seq<char>, k: int)
    requires
        0 <= k < rows.len(),
        rows[k].status == Status::Leased,
        lease_ran_out(rows[k], now),
    ensures
        claimable(rows[k], now),
        any_claimable(rows, now),
{
    assert(claimable(rows[k], now));
}

/// A leased message with no recorded lease end is never claimable.
pub proof fn lemma_endless_lease_never_claimable(rows: Seq<RowModel>, now: Seq<char>, k: int)
    requires
        0 <= k < rows.len(),
        rows[k].status == Status::Leased,
        rows[k].lease_expires_at is None,
    ensures
        !claimable(rows[k], now),
        !is_claim_choice(rows, now, k),
{
}

/// A pending message is claimable at any time.
pub proof fn lemma_pending_claimable(rows: Seq<RowModel>, now: Seq<char>, k: int)
    requires
        0 <= k < rows.len(),
        rows[k].status == Status::Pending,
    ensures
        claimable(rows[k], now),
        any_claimable(rows, now),
{
    assert(claimable(rows[k], now));
}

/// Only the lease holder may acknowledge: when message `id` is held by
/// another session, an acknowledgement by `session` at any time applies to
/// no row and leaves the ledger unchanged.
pub proof fn lemma_stale_ack_is_noop(
    rows: Seq<RowModel>,
    k: int,
    id: Seq<char>,
    holder: Seq<char>,
    session: Seq<char>,
    now: Seq<char>,
)
    requires
        distinct_ids(rows),
        0 <= k < rows.len(),
        rows[k].msg_id == id,
        rows[k].claimed_by == Some(holder),
        holder != session,
    ensures
        !any_ackable(rows, id, session, now),
        after_ack(rows, id, session, now) == rows,
{
    assert forall|j: int| 0 <= j < rows.len() implies !#[trigger] ackable(rows[j], id, session, now) by {
        if j != k {
            assert(rows[j].msg_id != rows[k].msg_id);
        }
    }
    assert(after_ack(rows, id, session, now) =~= rows);
}

/// An acknowledgement after the lease ran out is refused, even from the
/// holder, and changes nothing.
pub proof fn lemma_expired_lease_ack_refused(
    rows: Seq<RowModel>,
    k: int,
    session: Seq<char>,
    now: Seq<char>,
)
    requires
        distinct_ids(rows),
        0 <= k < rows.len(),
        lease_ran_out(rows[k], now),
    ensures
        !any_ackable(rows, rows[k].msg_id, session, now),
        after_ack(rows, rows[k].msg_id, session, now) == rows,
{
    let id = rows[k].msg_id;
    assert forall|j: int| 0 <= j < rows.len() implies !#[trigger] ackable(rows[j], id, session, now) by {
        if j != k {
            assert(rows[j].msg_id != rows[k].msg_id);
        }
    }
    assert(after_ack(rows, id, session, now) =~= rows);
}

/// Reclaim is safe: once a message is claimed by a new session, the
/// acknowledgement of the former holder is refused at any time and changes
/// nothing, so the two claimants cannot both deliver it.
pub proof fn lemma_reclaim_refuses_former_holder(
    rows: Seq<RowModel>,
    now: Seq<char>,
    i: int,
    former: Seq<char>,
    session: Seq<char>,
    until: Option<Seq<char>>,
    ack_now: Seq<char>,
)
    requires
        distinct_ids(rows),
        is_claim_choice(rows, now, i),
        former != session,
    ensures
        !any_ackable(
            rows.update(i, leased(rows[i], session, until)),
            rows[i].msg_id,
            former,
            ack_now,
        ),
        after_ack(rows.update(i, leased(rows[i], session, until)), rows[i].msg_id, former, ack_now)
            == rows.update(i, leased(rows[i], session, until)),
{
    let after = rows.update(i, leased(rows[i], session, until));
    assert(distinct_ids(after)) by {
        assert forall|a: int, b: int|
            0 <= a < after.len() && 0 <= b < after.len() && a != b implies #[trigger] after[a].msg_id
                != #[trigger] after[b].msg_id by {
            assert(after[a].msg_id == rows[a].msg_id);
            assert(after[b].msg_id == rows[b].msg_id);
        }
    }
    lemma_stale_ack_is_noop(after, i, rows[i].msg_id, session, former, ack_now);
}

/// A claim followed by the claimant's acknowledgement before the lease runs
/// out delivers the message: the acknowledgement applies, and it leaves the
/// claimed row delivered and every other row as it was.
pub proof fn lemma_claim_then_ack_delivers(
    rows: Seq<RowModel>,
    now: Seq<char>,
    i: int,
    session: Seq<char>,
    until: Option<Seq<char>>,
    ack_now: Seq<char>,
)
    requires
        distinct_ids(rows),
        is_claim_choice(rows, now, i),
        !lease_ran_out(leased(rows[i], session, until), ack_now),
    ensures
        any_ackable(
            rows.update(i, leased(rows[i], session, until)),
            rows[i].msg_id,
            session,
            ack_now,
        ),
        after_ack(rows.update(i, leased(rows[i], session, until)), rows[i].msg_id, session, ack_now)
            == rows.update(i, delivered(leased(rows[i], session, until))),
{
    let after = rows.update(i, leased(rows[i], session, until));
    assert(ackable(after[i], rows[i].msg_id, session, ack_now));
    assert forall|j: int| 0 <= j < after.len() && j != i implies !#[trigger] ackable(
        after[j],
        rows[i].msg_id,
        session,
        ack_now,
    ) by {
        assert(rows[j].msg_id != rows[i].msg_id);
    }
    assert(after_ack(after, rows[i].msg_id, session, ack_now) =~= rows.update(
        i,
        delivered(leased(rows[i], session, until)),
    ));
}

/// Once an acknowledgement applies, a further acknowledgement of the same
/// message, by any session at any time, applies to no row and changes
/// nothing: the message stays delivered.
pub proof fn lemma_second_ack_refused(
    rows: Seq<RowModel>,
    id: Seq<char>,
    session: Seq<char>,
    now: Seq<char>,
    session2: Seq<char>,
    now2: Seq<char>,
)
    requires
        distinct_ids(rows),
        any_ackable(rows, id, session, now),
    ensures
        !any_ackable(after_ack(rows, id, session, now), id, session2, now2),
        after_ack(after_ack(rows, id, session, now), id, session2, now2) == after_ack(
            rows,
            id,
            session,
            now,
        ),
{
    let once = after_ack(rows, id, session, now);
    let k0 = choose|k: int| 0 <= k < rows.len() && #[trigger] ackable(rows[k], id, session, now);
    assert forall|k: int| 0 <= k < once.len() implies !#[trigger] ackable(once[k], id, session2, now2) by {
        if k != k0 {
            assert(rows[k].msg_id != rows[k0].msg_id);
        }
    }
    assert(after_ack(once, id, session2, now2) =~= once);
}

/// Byte-wise text order is total: of two different texts one sorts first.
pub proof fn lemma_text_lt_total(a: Seq<char>, b: Seq<char>, i: int)
    requires
        0 <= i <= a.len(),
        i <= b.len(),
        a.subrange(0, i) == b.subrange(0, i),
        !text_lt_from(a, b, i),
        !text_lt_from(b, a, i),
    ensures
        a == b,
    decreases a.len() - i,
{
    if i < a.len() && i < b.len() {
        assert((a[i] as int) == (b[i] as int));
        assert(a[i] == b[i]);
        assert(a.subrange(0, i + 1) =~= a.subrange(0, i).push(a[i]));
        assert(b.subrange(0, i + 1) =~= b.subrange(0, i).push(b[i]));
        lemma_text_lt_total(a, b, i + 1);
    } else {
        assert(a.len() == i && b.len() == i);
        assert(a =~= a.subrange(0, i));
        assert(b =~= b.subrange(0, i));
    }
}

/// The claim is determined: at a given time at most one row is the one a
/// claim takes.
pub proof fn lemma_claim_choice_unique(rows: Seq<RowModel>, now: Seq<char>, i: int, j: int)
    requires
        is_claim_choice(rows, now, i),
        is_claim_choice(rows, now, j),
    ensures
        i == j,
{
    if i != j {
        let a = rows[i].received_at;
        let b = rows[j].received_at;
        assert(!text_lt(b, a));
        assert(!text_lt(a, b));
        assert(a.subrange(0, 0) =~= b.subrange(0, 0));
        lemma_text_lt_total(a, b, 0);
        if i < j {
            assert(rows[i].received_at != rows[j].received_at);
        } else {
            assert(rows[j].received_at != rows[i].received_at);
        }
    }
}

/// Consistency lasts over any run of operations: when each ledger follows
/// the one before and keeps consistency as the operations' contracts state,
/// a consistent first ledger gives a consistent last one.
pub proof fn lemma_consistency_over_runs(runs: Seq<Seq<RowModel>>)
    requires
        runs.len() > 0,
        consistent(runs[0]),
        forall|j: int|
            0 <= j < runs.len() - 1 ==> (consistent(runs[j]) ==> #[trigger] consistent(runs[j + 1])),
    ensures
        consistent(runs.last()),
    decreases runs.len(),
{
    if runs.len() > 1 {
        let prefix = runs.drop_last();
        assert forall|j: int| 0 <= j < prefix.len() - 1 && consistent(prefix[j]) implies #[trigger] consistent(prefix[j + 1]) by {
            assert(prefix[j] == runs[j]);
            assert(prefix[j + 1] == runs[j + 1]);
        }
        lemma_consistency_over_runs(prefix);
        let n = runs.len() - 2;
        assert(prefix.last() == runs[n]);
        assert(consistent(runs[n]) ==> consistent(runs[n + 1]));
    }
}

/// A freshly staged row is consistent.
pub proof fn lemma_staged_row_consistent(
    id: Seq<char>,
    source: Seq<char>,
    body: Seq<char>,
    now: Seq<char>,
)
    ensures
        row_consistent(staged_row(id, source, body, now)),
{
}


/// Staging keeps the message whole: for a new id the ledger grows by one
/// row at the end, carrying exactly the given id, source, body and receipt
/// time, pending and unclaimed, with every earlier row as it was; for a
/// known id nothing changes.
pub proof fn lemma_staging_keeps_message_whole(
    rows: Seq<RowModel>,
    id: Seq<char>,
    source: Seq<char>,
    body: Seq<char>,
    now: Seq<char>,
)
    ensures
        has_id(rows, id) ==> after_enqueue(rows, id, source, body, now) == rows,
        !has_id(rows, id) ==> {
            let after = after_enqueue(rows, id, source, body, now);
            &&& after.len() == rows.len() + 1
            &&& forall|k: int| 0 <= k < rows.len() ==> #[trigger] after[k] == rows[k]
            &&& after[rows.len() as int].msg_id == id
            &&& after[rows.len() as int].source == source
            &&& after[rows.len() as int].body == body
            &&& after[rows.len() as int].received_at == now
            &&& after[rows.len() as int].status == Status::Pending
            &&& after[rows.len() as int].claimed_by is None
            &&& after[rows.len() as int].lease_expires_at is None
        },
{
}

/// A claimed message carries its row's own id, source, body and receipt
/// time, and reports no lease end.
pub proof fn lemma_claimed_message_fields(r: RowModel)
    ensures
        message_of(r).id == r.msg_id,
        message_of(r).source == r.source,
        message_of(r).body == r.body,
        message_of(r).received_at == r.received_at,
        message_of(r).lease_expires_at is None,
{
}

/// A claimed row keeps its message and becomes leased to the claimant until
/// the given end.
pub proof fn lemma_leased_row_fields(r: RowModel, session: Seq<char>, until: Option<Seq<char>>)
    ensures
        leased(r, session, until).msg_id == r.msg_id,
        leased(r, session, until).source == r.source,
        leased(r, session, until).body == r.body,
        leased(r, session, until).received_at == r.received_at,
        leased(r, session, until).status == Status::Leased,
        leased(r, session, until).claimed_by == Some(session),
        leased(r, session, until).lease_expires_at == until,
{
}

/// A lease runs out exactly when its recorded end sorts strictly before
/// `now`; a row with no recorded end never runs out.
pub proof fn lemma_lease_ran_out_meaning(r: RowModel, now: Seq<char>)
    ensures
        r.lease_expires_at is None ==> !lease_ran_out(r, now),
        r.lease_expires_at is Some ==> (lease_ran_out(r, now) <==> text_lt(
            r.lease_expires_at->0,
            now,
        )),
{
}

/// What may be claimed: every pending row, a leased row exactly when its
/// lease ran out, and never a delivered row.
pub proof fn lemma_claimable_meaning(r: RowModel, now: Seq<char>)
    ensures
        r.status == Status::Pending ==> claimable(r, now),
        r.status == Status::Delivered ==> !claimable(r, now),
        r.status == Status::Leased ==> (claimable(r, now) <==> lease_ran_out(r, now)),
{
}

/// A claim takes a claimable row that no claimable row precedes in receipt
/// time, and of rows received at the same time the first in the ledger.
pub proof fn lemma_claim_takes_oldest(rows: Seq<RowModel>, now: Seq<char>, i: int, j: int)
    requires
        is_claim_choice(rows, now, i),
        0 <= j < rows.len(),
        claimable(rows[j], now),
    ensures
        0 <= i < rows.len(),
        claimable(rows[i], now),
        !text_lt(rows[j].received_at, rows[i].received_at),
        j < i ==> rows[j].received_at != rows[i].received_at,
{
}

/// A claimable row is the claim's choice when it is received strictly
/// before every other claimable row.
pub proof fn lemma_strictly_oldest_is_chosen(rows: Seq<RowModel>, now: Seq<char>, i: int)
    requires
        0 <= i < rows.len(),
        claimable(rows[i], now),
        forall|j: int|
            0 <= j < rows.len() && j != i && claimable(rows[j], now) ==> text_lt(
                rows[i].received_at,
                #[trigger] rows[j].received_at,
            ),
    ensures
        is_claim_choice(rows, now, i),
{
    assert forall|j: int|
        0 <= j < rows.len() && claimable(rows[j], now) implies !text_lt(
            #[trigger] rows[j].received_at,
            rows[i].received_at,
        ) by {
        if j == i {
            crate::text::lemma_text_lt_irreflexive(rows[i].received_at, 0);
        } else if text_lt(rows[j].received_at, rows[i].received_at) {
            crate::text::lemma_text_lt_transitive(rows[j].received_at, rows[i].received_at, rows[j].received_at, 0);
            crate::text::lemma_text_lt_irreflexive(rows[j].received_at, 0);
        }
    }
    assert forall|j: int|
        0 <= j < i && claimable(rows[j], now) implies #[trigger] rows[j].received_at
            != rows[i].received_at by {
        if rows[j].received_at == rows[i].received_at {
            crate::text::lemma_text_lt_irreflexive(rows[i].received_at, 0);
        }
    }
}

/// An acknowledgement applies to a row exactly when the row is that
/// message, leased, held by the acknowledging session, and its lease has not
/// run out.
pub proof fn lemma_ackable_meaning(r: RowModel, id: Seq<char>, session: Seq<char>, now: Seq<char>)
    ensures
        ackable(r, id, session, now) <==> (r.msg_id == id && r.status == Status::Leased
            && r.claimed_by == Some(session) && !lease_ran_out(r, now)),
{
}

/// An acknowledgement keeps the ledger's length; each row it applies to
/// becomes delivered with no lease and otherwise unchanged, and every other
/// row stays as it was.
pub proof fn lemma_ack_rows(rows: Seq<RowModel>, id: Seq<char>, session: Seq<char>, now: Seq<char>, k: int)
    requires
        0 <= k < rows.len(),
    ensures
        after_ack(rows, id, session, now).len() == rows.len(),
        !ackable(rows[k], id, session, now) ==> after_ack(rows, id, session, now)[k] == rows[k],
        ackable(rows[k], id, session, now) ==> {
            let r = after_ack(rows, id, session, now)[k];
            &&& r.status == Status::Delivered
            &&& r.lease_expires_at is None
            &&& r.msg_id == rows[k].msg_id
            &&& r.source == rows[k].source
            &&& r.body == rows[k].body
            &&& r.received_at == rows[k].received_at
            &&& r.claimed_by == rows[k].claimed_by
        },
{
}

/// The three stored status texts are `pending`, `leased` and `delivered`,
/// and no two statuses share one.
pub proof fn lemma_status_texts(a: Status, b: Status)
    ensures
        status_text(Status::Pending) == seq!['p', 'e', 'n', 'd', 'i', 'n', 'g'],
        status_text(Status::Leased) == seq!['l', 'e', 'a', 's', 'e', 'd'],
        status_text(Status::Delivered) == seq!['d', 'e', 'l', 'i', 'v', 'e', 'r', 'e', 'd'],
        status_text(a) == status_text(b) ==> a == b,
{
    reveal_strlit("pending");
    reveal_strlit("leased");
    reveal_strlit("delivered");
    assert(status_text(Status::Pending) =~= seq!['p', 'e', 'n', 'd', 'i', 'n', 'g']);
    assert(status_text(Status::Leased) =~= seq!['l', 'e', 'a', 's', 'e', 'd']);
    assert(status_text(Status::Delivered) =~= seq!['d', 'e', 'l', 'i', 'v', 'e', 'r', 'e', 'd']);
    if status_text(a) == status_text(b) && a != b {
        match a {
            Status::Pending => match b {
                Status::Leased => { assert(status_text(a)[0] != status_text(b)[0]); },
                Status::Delivered => { assert(status_text(a)[0] != status_text(b)[0]); },
                Status::Pending => {},
            },
            Status::Leased => match b {
                Status::Pending => { assert(status_text(a)[0] != status_text(b)[0]); },
                Status::Delivered => { assert(status_text(a)[0] != status_text(b)[0]); },
                Status::Leased => {},
            },
            Status::Delivered => match b {
                Status::Pending => { assert(status_text(a)[0] != status_text(b)[0]); },
                Status::Leased => { assert(status_text(a)[0] != status_text(b)[0]); },
                Status::Delivered => {},
            },
        }
    }
}

/// The lease modifier is `+`, then the lease seconds in decimal (with `-`
/// when negative), then ` seconds`.
pub proof fn lemma_lease_modifier_form(lease_secs: int)
    ensures
        lease_modifier(lease_secs)[0] == '+',
        lease_modifier(lease_secs).len() == signed_decimal(lease_secs).len() + 9,
        lease_modifier(lease_secs).subrange(1, signed_decimal(lease_secs).len() as int + 1)
            == signed_decimal(lease_secs),
        lease_modifier(lease_secs).skip(signed_decimal(lease_secs).len() as int + 1) == seq![
            ' ',
            's',
            'e',
            'c',
            'o',
            'n',
            'd',
            's',
        ],
        (signed_decimal(lease_secs)[0] == '-') <==> lease_secs < 0,
        lease_secs >= 0 ==> digits_value(signed_decimal(lease_secs)) == lease_secs,
        lease_secs < 0 ==> digits_value(signed_decimal(lease_secs).drop_first()) == -lease_secs,
{
    reveal_strlit(" seconds");
    lemma_signed_decimal_denotes(lease_secs);
    let d = signed_decimal(lease_secs);
    let m = lease_modifier(lease_secs);
    assert(m.subrange(1, d.len() as int + 1) =~= d);
    assert(m.skip(d.len() as int + 1) =~= seq![' ', 's', 'e', 'c', 'o', 'n', 'd', 's']);
}


/// Message ids: `has_id` holds exactly when some row carries the id, and in
/// a ledger with distinct ids two different rows carry different ids.
pub proof fn lemma_ids_meaning(rows: Seq<RowModel>, id: Seq<char>, i: int, j: int)
    ensures
        has_id(rows, id) <==> exists|k: int| 0 <= k < rows.len() && rows[k].msg_id == id,
        distinct_ids(rows) && 0 <= i < rows.len() && 0 <= j < rows.len() && i != j ==> rows[i].msg_id
            != rows[j].msg_id,
{
    if has_id(rows, id) {
        let k = choose|k: int| 0 <= k < rows.len() && #[trigger] rows[k].msg_id == id;
        assert(rows[k].msg_id == id);
    }
    if exists|k: int| 0 <= k < rows.len() && rows[k].msg_id == id {
        let k = choose|k: int| 0 <= k < rows.len() && rows[k].msg_id == id;
        assert(rows[k].msg_id == id);
    }
}

/// The views of rows and messages read each field from the field of the
/// same name.
pub proof fn lemma_views_read_fields(r: InboxRow, m: Message, o: Option<String>)
    ensures
        r@.msg_id == r.msg_id@,
        r@.source == r.source@,
        r@.body == r.body@,
        r@.received_at == r.received_at@,
        r@.status == r.status,
        r@.claimed_by == opt_view(r.claimed_by),
        r@.lease_expires_at == opt_view(r.lease_expires_at),
        m@.id == m.id@,
        m@.source == m.source@,
        m@.body == m.body@,
        m@.received_at == m.received_at@,
        m@.lease_expires_at == opt_view(m.lease_expires_at),
        opt_view(o) is None <==> o is None,
        o matches Some(t) ==> opt_view(o) == Some(t@),
{
}

} // verus!
