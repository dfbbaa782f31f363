//! What order book synchronisation guarantees across calls.

use vstd::prelude::*;

use crate::connector::orderbook;
use crate::connector::orderbook::{BookModel, Join, SyncState};
use crate::connector::rest::SnapshotModel;
use crate::connector::stream::DepthModel;

verus! {

/// Each event carries the final update id of the event before it.
pub open spec fn chained(events: Seq<DepthModel>) -> bool {
    forall|i: int|
        0 < i < events.len() ==> (#[trigger] events[i]).prev_update_id == events[i
            - 1].last_update_id
}

/// Events that may be applied on top of a snapshot: the first one reaches
/// across the snapshot's update id, all are newer than the snapshot, and each
/// one follows the one before it.
pub open spec fn extends_snapshot(snapshot_id: i64, applied: Seq<DepthModel>) -> bool {
    &&& applied.len() > 0 ==> orderbook::reaches_across(applied[0], snapshot_id)
    &&& forall|i: int|
        0 <= i < applied.len() ==> snapshot_id < (#[trigger] applied[i]).last_update_id
    &&& chained(applied)
}

/// `part` is what stands at the end of `whole`.
pub open spec fn is_suffix(part: Seq<DepthModel>, whole: Seq<DepthModel>) -> bool {
    part.len() <= whole.len() && part == whole.skip(whole.len() - part.len())
}

/// What is kept of each book by every operation: a synchronized book has
/// nothing buffered and knows its ids, which are the same while it awaits its
/// first event; any other book knows no ids; a book that needs a new snapshot
/// has the events behind the gap buffered.
pub open spec fn book_ok(b: BookModel) -> bool {
    match b.state {
        SyncState::Synchronized => {
            &&& b.pending.len() == 0
            &&& b.last_update_id is Some
            &&& b.snapshot_last_update_id is Some
            &&& b.awaiting_first_event ==> b.last_update_id == b.snapshot_last_update_id
        },
        SyncState::Initializing => {
            &&& b.last_update_id is None
            &&& b.snapshot_last_update_id is None
            &&& !b.awaiting_first_event
        },
        SyncState::NeedResync => {
            &&& b.pending.len() > 0
            &&& b.last_update_id is None
            &&& b.snapshot_last_update_id is None
            &&& !b.awaiting_first_event
        },
    }
}

/// The book after a run of depth updates.
pub open spec fn run_updates(b: BookModel, ds: Seq<DepthModel>) -> BookModel
    decreases ds.len(),
{
    if ds.len() == 0 {
        b
    } else {
        orderbook::after_update(run_updates(b, ds.drop_last()), ds.last()).0
    }
}

/// Every update of the run is to be applied.
pub open spec fn all_applied(b: BookModel, ds: Seq<DepthModel>) -> bool {
    forall|i: int|
        0 <= i < ds.len() ==> (
        #[trigger] orderbook::after_update(
            run_updates(b, ds.take(i)),
            ds[i],
        )).1.0
}

proof fn lemma_join_from(snapshot_id: i64, applied: Seq<DepthModel>, pending: Seq<DepthModel>)
    requires
        extends_snapshot(snapshot_id, applied),
    ensures
        match orderbook::join_from(snapshot_id, applied, pending) {
            Join::Complete { applied: all } => extends_snapshot(snapshot_id, all),
            Join::SnapshotGap { rest } => is_suffix(rest, pending) && rest.len() > 0
                && rest.first().first_update_id > snapshot_id + 1,
            Join::EventGap { applied: all, rest } => extends_snapshot(snapshot_id, all)
                && all.len() > 0 && is_suffix(rest, pending) && rest.len() > 0
                && rest.first().prev_update_id != all.last().last_update_id,
        },
    decreases pending.len(),
{
    if pending.len() > 0 {
        let d = pending.first();
        let rest = pending.drop_first();
        if d.last_update_id <= snapshot_id {
            lemma_join_from(snapshot_id, applied, rest);
        } else if applied.len() == 0 {
            if d.first_update_id <= snapshot_id {
                lemma_join_from(snapshot_id, applied.push(d), rest);
            } else if d.first_update_id <= snapshot_id + 1 {
                lemma_join_from(snapshot_id, applied, rest);
            }
        } else if d.prev_update_id == applied.last().last_update_id {
            lemma_join_from(snapshot_id, applied.push(d), rest);
        }
        assert(pending.skip(0) =~= pending);
        match orderbook::join_from(snapshot_id, applied, pending) {
            Join::Complete { .. } => {},
            Join::SnapshotGap { rest: left } => {
                if is_suffix(left, rest) {
                    assert(left =~= pending.skip(pending.len() - left.len()));
                }
            },
            Join::EventGap { applied: _, rest: left } => {
                if is_suffix(left, rest) {
                    assert(left =~= pending.skip(pending.len() - left.len()));
                }
            },
        }
    }
}

/// The buffered events that a snapshot hands on follow the exchange's rules:
/// events that the snapshot already covers are dropped, the first one applied
/// reaches across the snapshot, and each further one follows its predecessor.
/// Where the chain breaks, the events from the break on stay buffered.
pub proof fn law_buffered_events_extend_snapshot(snapshot_id: i64, pending: Seq<DepthModel>)
    ensures
        match orderbook::join(snapshot_id, pending) {
            Join::Complete { applied } => extends_snapshot(snapshot_id, applied),
            Join::SnapshotGap { rest } => is_suffix(rest, pending) && rest.len() > 0
                && rest.first().first_update_id > snapshot_id + 1,
            Join::EventGap { applied, rest } => extends_snapshot(snapshot_id, applied)
                && applied.len() > 0 && is_suffix(rest, pending) && rest.len() > 0
                && rest.first().prev_update_id != applied.last().last_update_id,
        },
{
    lemma_join_from(snapshot_id, Seq::empty(), pending);
}

proof fn lemma_chain_joins(snapshot_id: i64, applied: Seq<DepthModel>, pending: Seq<DepthModel>)
    requires
        applied.len() > 0,
        chained(applied + pending),
        forall|i: int|
            0 <= i < pending.len() ==> snapshot_id < (#[trigger] pending[i]).last_update_id,
    ensures
        orderbook::join_from(snapshot_id, applied, pending) == (Join::Complete {
            applied: applied + pending,
        }),
    decreases pending.len(),
{
    if pending.len() == 0 {
        assert(applied + pending =~= applied);
    } else {
        let d = pending.first();
        let all = applied + pending;
        assert(all[applied.len() as int].prev_update_id == all[applied.len() - 1].last_update_id);
        assert(applied.push(d) + pending.drop_first() =~= all);
        assert forall|i: int| 0 <= i < pending.drop_first().len() implies snapshot_id < (
        #[trigger] pending.drop_first()[i]).last_update_id by {
            assert(pending[i + 1].last_update_id > snapshot_id);
        }
        lemma_chain_joins(snapshot_id, applied.push(d), pending.drop_first());
    }
}

/// A buffer without a gap is always joined: where the events follow each
/// other and the first one that the snapshot does not cover reaches back to
/// it, that event and all behind it are applied.
pub proof fn law_continuous_buffer_joins(snapshot_id: i64, pending: Seq<DepthModel>, k: int)
    requires
        0 <= k < pending.len(),
        chained(pending),
        forall|i: int|
            0 <= i < k ==> (#[trigger] pending[i]).last_update_id <= snapshot_id,
        orderbook::reaches_across(pending[k], snapshot_id),
        forall|i: int|
            k < i < pending.len() ==> snapshot_id < (#[trigger] pending[i]).last_update_id,
    ensures
        orderbook::join(snapshot_id, pending) == (Join::Complete {
            applied: pending.skip(k),
        }),
    decreases k,
{
    let rest = pending.drop_first();
    if k == 0 {
        let first = Seq::<DepthModel>::empty().push(pending.first());
        assert(first + rest =~= pending);
        assert(pending.skip(0) =~= pending);
        assert forall|i: int| 0 <= i < rest.len() implies snapshot_id < (
        #[trigger] rest[i]).last_update_id by {
            assert(pending[i + 1].last_update_id > snapshot_id);
        }
        lemma_chain_joins(snapshot_id, first, rest);
    } else {
        assert(pending[0].last_update_id <= snapshot_id);
        assert forall|i: int| 0 < i < rest.len() implies (#[trigger] rest[i]).prev_update_id
            == rest[i - 1].last_update_id by {
            assert(pending[i + 1].prev_update_id == pending[i].last_update_id);
        }
        assert forall|i: int| 0 <= i < k - 1 implies (#[trigger] rest[i]).last_update_id
            <= snapshot_id by {
            assert(pending[i + 1].last_update_id <= snapshot_id);
        }
        assert(rest[k - 1] == pending[k]);
        assert forall|i: int| k - 1 < i < rest.len() implies snapshot_id < (
        #[trigger] rest[i]).last_update_id by {
            assert(pending[i + 1].last_update_id > snapshot_id);
        }
        law_continuous_buffer_joins(snapshot_id, rest, k - 1);
        assert(rest.skip(k - 1) =~= pending.skip(k));
    }
}

/// A snapshot is answered with no events exactly where nothing reaches back
/// to it; otherwise the snapshot comes first, and the book is synchronized
/// unless the buffered events break.
pub proof fn law_snapshot_answers(b: BookModel, s: SnapshotModel)
    ensures
        ({
            let (after, events) = orderbook::after_snapshot(b, s);
            let joined = orderbook::join(s.last_update_id, b.pending);
            &&& (events.len() == 0) == (joined is SnapshotGap)
            &&& events.len() > 0 ==> events[0] == orderbook::snapshot_event(
                b.symbol,
                s,
            )
            &&& (after.state == SyncState::Synchronized) == (joined is Complete)
            &&& orderbook::wants_snapshot(after) == !(joined is Complete)
        }),
{
}

/// Every book starts well and is kept so by updates, snapshots and resets.
pub proof fn law_book_invariant(b: BookModel, d: DepthModel, s: SnapshotModel)
    requires
        book_ok(b),
    ensures
        book_ok(orderbook::fresh_book(b.symbol)),
        book_ok(orderbook::after_update(b, d).0),
        book_ok(orderbook::after_snapshot(b, s).0),
        orderbook::after_update(b, d).0.symbol == b.symbol,
        orderbook::after_snapshot(b, s).0.symbol == b.symbol,
{
    law_buffered_events_extend_snapshot(s.last_update_id, b.pending);
}

/// A refused update is never lost silently: it is buffered, or the snapshot
/// already covers it.
pub proof fn law_refused_update_is_kept(b: BookModel, d: DepthModel)
    ensures
        ({
            let (after, (applied, _)) = orderbook::after_update(b, d);
            !applied ==> (after.pending.len() > 0 && after.pending.last() == d) || (after == b
                && b.snapshot_last_update_id is Some && d.last_update_id
                <= b.snapshot_last_update_id->0)
        }),
{
}

/// A snapshot is requested exactly when buffering begins: on the first event
/// of an initializing book, and on the event that shows a gap.
pub proof fn law_snapshot_requested_when_buffering_begins(b: BookModel, d: DepthModel)
    requires
        book_ok(b),
    ensures
        ({
            let (after, (_, request)) = orderbook::after_update(b, d);
            request == (b.pending.len() == 0 && after.pending == seq![d])
        }),
{
    let (after, (_, request)) = orderbook::after_update(b, d);
    if request {
        assert(after.pending =~= seq![d]);
    }
}

/// On a synchronized book a run of updates is applied in full exactly when
/// each one follows the one before it, starting from the book's own id.
pub proof fn law_applied_updates_are_continuous(b: BookModel, u: i64, ds: Seq<DepthModel>)
    requires
        b.state == SyncState::Synchronized,
        !b.awaiting_first_event,
        b.last_update_id == Some(u),
    ensures
        all_applied(b, ds) == (chained(ds) && (ds.len() > 0 ==> ds[0].prev_update_id == u)),
        all_applied(b, ds) ==> run_updates(b, ds) == (BookModel {
            last_update_id: Some(if ds.len() > 0 { ds.last().last_update_id } else { u }),
            ..b
        }),
    decreases ds.len(),
{
    if ds.len() > 0 {
        let n = ds.len() - 1;
        let front = ds.drop_last();
        law_applied_updates_are_continuous(b, u, front);
        assert(ds.take(n) =~= front);
        assert forall|i: int| 0 <= i < n implies #[trigger] ds.take(i) == front.take(i) by {
            assert(ds.take(i) =~= front.take(i));
        }
        if all_applied(b, ds) {
            assert forall|i: int| 0 <= i < front.len() implies (
            #[trigger] orderbook::after_update(
                run_updates(b, front.take(i)),
                front[i],
            )).1.0 by {
                assert(orderbook::after_update(
                    run_updates(b, ds.take(i)),
                    ds[i],
                ).1.0);
            }
            assert(orderbook::after_update(run_updates(b, ds.take(n)), ds[n]).1.0);
            assert forall|i: int| 0 < i < ds.len() implies (#[trigger] ds[i]).prev_update_id
                == ds[i - 1].last_update_id by {
                if i < n {
                    assert(front[i].prev_update_id == front[i - 1].last_update_id);
                }
            }
        }
        if chained(ds) && ds[0].prev_update_id == u {
            assert forall|i: int| 0 < i < front.len() implies (#[trigger] front[i]).prev_update_id
                == front[i - 1].last_update_id by {
                assert(ds[i].prev_update_id == ds[i - 1].last_update_id);
            }
            assert(ds[n].prev_update_id == (if n > 0 { ds[n - 1].last_update_id } else { u }));
            assert forall|i: int| 0 <= i < ds.len() implies (
            #[trigger] orderbook::after_update(
                run_updates(b, ds.take(i)),
                ds[i],
            )).1.0 by {
                if i < n {
                    assert(orderbook::after_update(
                        run_updates(b, front.take(i)),
                        front[i],
                    ).1.0);
                }
            }
        }
    }
}

/// From a snapshot on, nothing is missed: once a book has been synchronized,
/// the events that the snapshot handed on and every update applied after them
/// form one chain that extends the snapshot.
pub proof fn law_no_update_is_missed(b: BookModel, s: SnapshotModel, ds: Seq<DepthModel>)
    requires
        orderbook::join(s.last_update_id, b.pending) is Complete,
        all_applied(orderbook::after_snapshot(b, s).0, ds),
    ensures
        extends_snapshot(
            s.last_update_id,
            orderbook::join(s.last_update_id, b.pending)->Complete_applied,
        ),
        ({
            let applied =
                orderbook::join(s.last_update_id, b.pending)->Complete_applied;
            &&& chained(applied + ds)
            &&& applied.len() == 0 && ds.len() > 0 ==> orderbook::reaches_across(
                ds[0],
                s.last_update_id,
            )
        }),
{
    law_buffered_events_extend_snapshot(s.last_update_id, b.pending);
    let applied = orderbook::join(s.last_update_id, b.pending)->Complete_applied;
    let start = orderbook::after_snapshot(b, s).0;
    if ds.len() > 0 {
        if applied.len() > 0 {
            law_applied_updates_are_continuous(start, applied.last().last_update_id, ds);
        } else {
            assert(ds.take(0) =~= Seq::<DepthModel>::empty());
            assert(orderbook::after_update(run_updates(start, ds.take(0)), ds[0]).1.0);
            let next = orderbook::after_update(start, ds[0]).0;
            let tail = ds.skip(1);
            assert forall|i: int| 0 <= i < tail.len() implies (
            #[trigger] orderbook::after_update(
                run_updates(next, tail.take(i)),
                tail[i],
            )).1.0 by {
                lemma_run_updates_first(start, ds.take(i + 1));
                assert(ds.take(i + 1).skip(1) =~= tail.take(i));
                assert(orderbook::after_update(
                    run_updates(start, ds.take(i + 1)),
                    ds[i + 1],
                ).1.0);
            }
            law_applied_updates_are_continuous(next, ds[0].last_update_id, tail);
            assert forall|i: int| 0 < i < ds.len() implies (#[trigger] ds[i]).prev_update_id
                == ds[i - 1].last_update_id by {
                if i > 1 {
                    assert(tail[i - 1].prev_update_id == tail[i - 2].last_update_id);
                } else {
                    assert(tail[0].prev_update_id == ds[0].last_update_id);
                }
            }
        }
    }
    let all = applied + ds;
    assert forall|i: int| 0 < i < all.len() implies (#[trigger] all[i]).prev_update_id == all[i
        - 1].last_update_id by {
        if i < applied.len() {
            assert(applied[i].prev_update_id == applied[i - 1].last_update_id);
        } else if i > applied.len() {
            assert(ds[i - applied.len()].prev_update_id == ds[i - applied.len()
                - 1].last_update_id);
        }
    }
}

proof fn lemma_run_updates_first(b: BookModel, ds: Seq<DepthModel>)
    requires
        ds.len() > 0,
    ensures
        run_updates(b, ds) == run_updates(
            orderbook::after_update(b, ds[0]).0,
            ds.skip(1),
        ),
    decreases ds.len(),
{
    reveal_with_fuel(run_updates, 2);
    if ds.len() == 1 {
        assert(ds.drop_last() =~= Seq::<DepthModel>::empty());
        assert(ds.skip(1) =~= Seq::<DepthModel>::empty());
    } else {
        lemma_run_updates_first(b, ds.drop_last());
        assert(ds.drop_last().skip(1) =~= ds.skip(1).drop_last());
    }
}

/// After all books are marked for resync, each known symbol is initializing
/// and needs a snapshot, and no symbol is added or lost.
pub proof fn law_resync_all(books: Map<Seq<char>, BookModel>)
    ensures
        ({
            let after = books.map_entries(
                |s: Seq<char>, b: BookModel| orderbook::fresh_book(s),
            );
            &&& after.dom() == books.dom()
            &&& forall|s: Seq<char>| #[trigger]
                after.contains_key(s) ==> after[s].state == SyncState::Initializing
                    && orderbook::wants_snapshot(after[s])
        }),
{
    let after = books.map_entries(
        |s: Seq<char>, b: BookModel| orderbook::fresh_book(s),
    );
    assert(after.dom() =~= books.dom());
}

} // verus!
