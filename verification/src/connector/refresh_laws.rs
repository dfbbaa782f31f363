//! What a snapshot and a depth update do to a book, and what is handed out.

use vstd::prelude::*;

use crate::connector::orderbook;
use crate::connector::orderbook::{BookModel, DepthEventModel, Join, SyncState};
use crate::connector::orderbook_laws;
use crate::connector::rest::SnapshotModel;
use crate::connector::stream::DepthModel;

verus! {

/// The event refreshes the whole book with what the snapshot says.
pub open spec fn refreshes(e: DepthEventModel, of: Seq<char>, s: SnapshotModel) -> bool {
    match e {
        DepthEventModel::Snapshot { symbol, transaction_time, bids, asks, last_update_id } => {
            &&& symbol == of
            &&& transaction_time == s.transaction_time
            &&& bids == s.bids
            &&& asks == s.asks
            &&& last_update_id == s.last_update_id
        },
        DepthEventModel::Update { .. } => false,
    }
}

/// The event carries the levels, the time and the ids of a depth update.
pub open spec fn carries(e: DepthEventModel, of: Seq<char>, d: DepthModel) -> bool {
    match e {
        DepthEventModel::Update {
            symbol,
            transaction_time,
            bids,
            asks,
            first_update_id,
            last_update_id,
        } => {
            &&& symbol == of
            &&& transaction_time == d.transaction_time
            &&& bids == d.bids
            &&& asks == d.asks
            &&& first_update_id == d.first_update_id
            &&& last_update_id == d.last_update_id
        },
        DepthEventModel::Snapshot { .. } => false,
    }
}

/// The events are the snapshot and then each of the updates, once and in turn.
pub open spec fn hands_out(
    events: Seq<DepthEventModel>,
    symbol: Seq<char>,
    s: SnapshotModel,
    updates: Seq<DepthModel>,
) -> bool {
    &&& events.len() == 1 + updates.len()
    &&& refreshes(events[0], symbol, s)
    &&& forall|i: int|
        0 <= i < updates.len() ==> carries(events[i + 1], symbol, #[trigger] updates[i])
}

/// A snapshot that buffered events join is handed out, followed by each joined
/// event, all of them and nothing else; one that none reaches back to is not.
pub proof fn law_snapshot_is_followed_by_the_joined_updates(b: BookModel, s: SnapshotModel)
    ensures
        ({
            let events = orderbook::after_snapshot(b, s).1;
            match orderbook::join(s.last_update_id, b.pending) {
                Join::Complete { applied } => hands_out(events, b.symbol, s, applied),
                Join::EventGap { applied, .. } => hands_out(events, b.symbol, s, applied),
                Join::SnapshotGap { .. } => events.len() == 0,
            }
        }),
{
}

/// The book is in step with the exchange from the update `u` on.
pub open spec fn in_step(b: BookModel, snapshot_id: i64, u: i64) -> bool {
    &&& b.state == SyncState::Synchronized
    &&& b.pending.len() == 0
    &&& b.last_update_id == Some(u)
    &&& b.snapshot_last_update_id == Some(snapshot_id)
}

/// Where the buffer has no gap and reaches back to the snapshot, every update
/// that the snapshot does not cover is handed out behind it, and the book is
/// in step with the last of them.
pub proof fn law_gap_free_buffer_is_handed_out(b: BookModel, s: SnapshotModel, k: int)
    requires
        0 <= k < b.pending.len(),
        orderbook_laws::chained(b.pending),
        forall|i: int|
            0 <= i < k ==> (#[trigger] b.pending[i]).last_update_id <= s.last_update_id,
        b.pending[k].first_update_id <= s.last_update_id,
        forall|i: int|
            k <= i < b.pending.len() ==> s.last_update_id < (
            #[trigger] b.pending[i]).last_update_id,
    ensures
        ({
            let (after, events) = orderbook::after_snapshot(b, s);
            &&& hands_out(events, b.symbol, s, b.pending.skip(k))
            &&& forall|j: int|
                k <= j < b.pending.len() ==> carries(
                    events[1 + j - k],
                    b.symbol,
                    #[trigger] b.pending[j],
                )
            &&& in_step(after, s.last_update_id, b.pending.last().last_update_id)
            &&& !after.awaiting_first_event
            &&& after.symbol == b.symbol
        }),
{
    orderbook_laws::law_continuous_buffer_joins(s.last_update_id, b.pending, k);
    let events = orderbook::after_snapshot(b, s).1;
    let updates = b.pending.skip(k);
    assert forall|j: int| k <= j < b.pending.len() implies carries(
        events[1 + j - k],
        b.symbol,
        #[trigger] b.pending[j],
    ) by {
        assert(updates[j - k] == b.pending[j]);
    }
}

proof fn lemma_covered_prefix(
    snapshot_id: i64,
    applied: Seq<DepthModel>,
    pending: Seq<DepthModel>,
    k: int,
)
    requires
        0 <= k <= pending.len(),
        forall|i: int| 0 <= i < k ==> (#[trigger] pending[i]).last_update_id <= snapshot_id,
    ensures
        orderbook::join_from(snapshot_id, applied, pending) == orderbook::join_from(
            snapshot_id,
            applied,
            pending.skip(k),
        ),
    decreases k,
{
    if k == 0 {
        assert(pending.skip(0) =~= pending);
    } else {
        let rest = pending.drop_first();
        assert(pending[0].last_update_id <= snapshot_id);
        assert forall|i: int| 0 <= i < k - 1 implies (#[trigger] rest[i]).last_update_id
            <= snapshot_id by {
            assert(pending[i + 1].last_update_id <= snapshot_id);
        }
        lemma_covered_prefix(snapshot_id, applied, rest, k - 1);
        assert(rest.skip(k - 1) =~= pending.skip(k));
    }
}

#[verifier::spinoff_prover]
proof fn lemma_chain_prefix(
    snapshot_id: i64,
    applied: Seq<DepthModel>,
    pending: Seq<DepthModel>,
    m: int,
)
    requires
        applied.len() > 0,
        0 <= m <= pending.len(),
        orderbook_laws::chained(applied + pending.take(m)),
        forall|i: int| 0 <= i < m ==> snapshot_id < (#[trigger] pending[i]).last_update_id,
    ensures
        orderbook::join_from(snapshot_id, applied, pending) == orderbook::join_from(
            snapshot_id,
            applied + pending.take(m),
            pending.skip(m),
        ),
    decreases m,
{
    if m == 0 {
        assert(pending.skip(0) =~= pending);
        assert(applied + pending.take(0) =~= applied);
    } else {
        let d = pending.first();
        let rest = pending.drop_first();
        let all = applied + pending.take(m);
        assert(pending[0].last_update_id > snapshot_id);
        assert(all[applied.len() as int] == d);
        assert(all[applied.len() as int].prev_update_id == all[applied.len() - 1].last_update_id);
        assert(applied.push(d) + rest.take(m - 1) =~= all);
        assert forall|i: int| 0 <= i < m - 1 implies snapshot_id < (
        #[trigger] rest[i]).last_update_id by {
            assert(pending[i + 1].last_update_id > snapshot_id);
        }
        lemma_chain_prefix(snapshot_id, applied.push(d), rest, m - 1);
        assert(rest.skip(m - 1) =~= pending.skip(m));
    }
}

/// Where the snapshot covers everything buffered, it is handed out alone, and
/// the book waits for the first event that reaches across it.
pub proof fn law_covered_buffer_is_dropped(b: BookModel, s: SnapshotModel)
    requires
        forall|i: int|
            0 <= i < b.pending.len() ==> (#[trigger] b.pending[i]).last_update_id
                <= s.last_update_id,
    ensures
        ({
            let (after, events) = orderbook::after_snapshot(b, s);
            &&& events.len() == 1
            &&& refreshes(events[0], b.symbol, s)
            &&& in_step(after, s.last_update_id, s.last_update_id)
            &&& after.awaiting_first_event
            &&& after.symbol == b.symbol
        }),
{
    lemma_covered_prefix(s.last_update_id, Seq::empty(), b.pending, b.pending.len() as int);
}

/// Where updates are missing between the snapshot and the first buffered event
/// that it does not cover, nothing is handed out: that event and all behind it
/// stay buffered, and a new snapshot is needed.
pub proof fn law_snapshot_that_is_too_old_is_refused(b: BookModel, s: SnapshotModel, k: int)
    requires
        0 <= k < b.pending.len(),
        forall|i: int|
            0 <= i < k ==> (#[trigger] b.pending[i]).last_update_id <= s.last_update_id,
        s.last_update_id < b.pending[k].last_update_id,
        b.pending[k].first_update_id > s.last_update_id + 1,
    ensures
        ({
            let (after, events) = orderbook::after_snapshot(b, s);
            &&& events.len() == 0
            &&& after.state == SyncState::NeedResync
            &&& after.pending == b.pending.skip(k)
            &&& after.symbol == b.symbol
            &&& after.last_update_id == b.last_update_id
            &&& after.snapshot_last_update_id == b.snapshot_last_update_id
            &&& after.awaiting_first_event == b.awaiting_first_event
        }),
{
    lemma_covered_prefix(s.last_update_id, Seq::empty(), b.pending, k);
    assert(b.pending.skip(k).first() == b.pending[k]);
}

proof fn lemma_chained_part(pending: Seq<DepthModel>, k: int, m: int)
    requires
        0 <= k < m <= pending.len(),
        forall|i: int, j: int|
            k <= i && j == i + 1 && j < m ==> (#[trigger] pending[j]).prev_update_id == (
            #[trigger] pending[i]).last_update_id,
    ensures
        orderbook_laws::chained(pending.subrange(k, m)),
{
    let part = pending.subrange(k, m);
    assert forall|i: int| 0 < i < part.len() implies (#[trigger] part[i]).prev_update_id == part[i
        - 1].last_update_id by {
        assert(part[i] == pending[k + i]);
        assert(part[i - 1] == pending[k + i - 1]);
    }
}

#[verifier::spinoff_prover]
proof fn lemma_broken_join(id: i64, pending: Seq<DepthModel>, k: int, m: int)
    requires
        0 <= k < m < pending.len(),
        forall|i: int| 0 <= i < k ==> (#[trigger] pending[i]).last_update_id <= id,
        pending[k].first_update_id <= id,
        forall|i: int| k <= i <= m ==> id < (#[trigger] pending[i]).last_update_id,
        orderbook_laws::chained(pending.subrange(k, m)),
        pending[m].prev_update_id != pending[m - 1].last_update_id,
    ensures
        orderbook::join(id, pending) == (Join::EventGap {
            applied: pending.subrange(k, m),
            rest: pending.skip(m),
        }),
{
    let none = Seq::<DepthModel>::empty();
    lemma_covered_prefix(id, none, pending, k);
    let uncovered = pending.skip(k);
    let first = none.push(pending[k]);
    let rest = uncovered.drop_first();
    assert(uncovered.first() == pending[k]);
    assert(orderbook::join(id, pending) == orderbook::join_from(id, first, rest));
    let all = pending.subrange(k, m);
    assert(first + rest.take(m - k - 1) =~= all);
    assert forall|i: int| 0 <= i < m - k - 1 implies id < (#[trigger] rest[i]).last_update_id by {
        assert(rest[i] == pending[k + 1 + i]);
    }
    lemma_chain_prefix(id, first, rest, m - k - 1);
    let left = pending.skip(m);
    assert(rest.skip(m - k - 1) =~= left);
    assert(orderbook::join(id, pending) == orderbook::join_from(id, all, left));
    assert(left.first() == pending[m]);
    assert(all.last() == pending[m - 1]);
}

/// Where the buffered events break behind the snapshot, those before the break
/// are handed out, the event that breaks and all behind it stay buffered, and
/// a new snapshot is needed.
pub proof fn law_broken_buffer_is_kept_from_the_break(
    b: BookModel,
    s: SnapshotModel,
    k: int,
    m: int,
)
    requires
        0 <= k < m < b.pending.len(),
        forall|i: int|
            0 <= i < k ==> (#[trigger] b.pending[i]).last_update_id <= s.last_update_id,
        b.pending[k].first_update_id <= s.last_update_id,
        forall|i: int|
            k <= i <= m ==> s.last_update_id < (#[trigger] b.pending[i]).last_update_id,
        forall|i: int, j: int|
            k <= i && j == i + 1 && j < m ==> (#[trigger] b.pending[j]).prev_update_id == (
            #[trigger] b.pending[i]).last_update_id,
        b.pending[m].prev_update_id != b.pending[m - 1].last_update_id,
    ensures
        ({
            let (after, events) = orderbook::after_snapshot(b, s);
            &&& hands_out(events, b.symbol, s, b.pending.subrange(k, m))
            &&& after.state == SyncState::NeedResync
            &&& after.pending == b.pending.skip(m)
            &&& after.symbol == b.symbol
        }),
{
    lemma_chained_part(b.pending, k, m);
    lemma_broken_join(s.last_update_id, b.pending, k, m);
}

/// Buffered events that the snapshot covers make no difference, and neither
/// does one that begins right behind the snapshot without reaching across it
/// while none has been joined.
pub proof fn law_what_does_not_join_makes_no_difference(b: BookModel, s: SnapshotModel, k: int)
    requires
        0 <= k <= b.pending.len(),
        forall|i: int|
            0 <= i < k ==> (#[trigger] b.pending[i]).last_update_id <= s.last_update_id,
    ensures
        orderbook::after_snapshot(b, s) == orderbook::after_snapshot(
            (BookModel { pending: b.pending.skip(k), ..b }),
            s,
        ),
        k < b.pending.len() && b.pending[k].first_update_id == s.last_update_id + 1
            ==> orderbook::after_snapshot(b, s) == orderbook::after_snapshot(
            (BookModel { pending: b.pending.skip(k + 1), ..b }),
            s,
        ),
{
    let id = s.last_update_id;
    lemma_covered_prefix(id, Seq::empty(), b.pending, k);
    let left = b.pending.skip(k);
    let other = BookModel { pending: left, ..b };
    assert(orderbook::join(id, b.pending) == orderbook::join(id, left));
    if k < b.pending.len() && b.pending[k].first_update_id == id + 1 {
        assert(left.first() == b.pending[k]);
        assert(left.drop_first() =~= b.pending.skip(k + 1));
    }
}

/// A book starts with nothing buffered and no ids, and asks for a snapshot; a
/// book asks for one exactly while it is not synchronized.
pub proof fn law_fresh_book_knows_nothing(symbol: Seq<char>, b: BookModel)
    ensures
        ({
            let fresh = orderbook::fresh_book(symbol);
            &&& fresh.symbol == symbol
            &&& fresh.state == SyncState::Initializing
            &&& fresh.pending.len() == 0
            &&& fresh.last_update_id is None
            &&& fresh.snapshot_last_update_id is None
            &&& !fresh.awaiting_first_event
        }),
        orderbook::wants_snapshot(b) == (b.state != SyncState::Synchronized),
{
}

/// While a book is not synchronized no update is applied and none is lost: it
/// is put behind those that are buffered, and nothing else changes. A snapshot
/// is requested with the first one of an initializing book only.
pub proof fn law_buffering_loses_nothing(b: BookModel, d: DepthModel)
    requires
        b.state != SyncState::Synchronized,
    ensures
        ({
            let (after, (applied, request)) = orderbook::after_update(b, d);
            &&& after.pending.len() == b.pending.len() + 1
            &&& forall|i: int|
                0 <= i < b.pending.len() ==> after.pending[i] == #[trigger] b.pending[i]
            &&& after.pending.last() == d
            &&& after == (BookModel { pending: after.pending, ..b })
            &&& !applied
            &&& request == (b.state == SyncState::Initializing && b.pending.len() == 0)
        }),
{
}

/// A synchronized book applies the update that follows the last one and goes
/// on from it; any other update shows a gap: the book starts over with that
/// update alone, and a snapshot is requested.
pub proof fn law_next_update_or_restart(b: BookModel, u: i64, d: DepthModel)
    requires
        b.state == SyncState::Synchronized,
        !b.awaiting_first_event,
        b.last_update_id == Some(u),
    ensures
        ({
            let (after, (applied, request)) = orderbook::after_update(b, d);
            &&& applied == (d.prev_update_id == u)
            &&& request == !applied
            &&& applied ==> after == (BookModel {
                last_update_id: Some(d.last_update_id),
                ..b
            })
            &&& request ==> is_restarted(after, b, d)
        }),
{
}

/// The book has started over with one update buffered.
pub open spec fn is_restarted(after: BookModel, b: BookModel, d: DepthModel) -> bool {
    &&& after.symbol == b.symbol
    &&& after.state == SyncState::Initializing
    &&& after.pending == seq![d]
    &&& after.last_update_id is None
    &&& after.snapshot_last_update_id is None
    &&& !after.awaiting_first_event
}

/// A book that was built from a snapshot alone passes over updates that the
/// snapshot covers, applies the first one that reaches across it, and starts
/// over where updates are missing in between.
pub proof fn law_first_update_behind_a_snapshot(b: BookModel, id: i64, d: DepthModel)
    requires
        b.state == SyncState::Synchronized,
        b.awaiting_first_event,
        b.snapshot_last_update_id == Some(id),
    ensures
        ({
            let (after, (applied, request)) = orderbook::after_update(b, d);
            &&& applied == (d.first_update_id <= id && id < d.last_update_id)
            &&& request == (id < d.last_update_id && id < d.first_update_id)
            &&& !applied && !request ==> after == b
            &&& applied ==> after == (BookModel {
                last_update_id: Some(d.last_update_id),
                awaiting_first_event: false,
                ..b
            })
            &&& request ==> is_restarted(after, b, d)
        }),
{
}

} // verus!
