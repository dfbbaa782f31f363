//! What becomes of the rows of snapshots.

use vstd::prelude::*;

use crate::data::normalize;
use crate::data::order_laws;
use crate::data::sort;
use crate::data::tardis;
use crate::data::tardis::{
    ConvertState, DepthRow, FileType, SnapshotMode, TardisFileModel,
};
use crate::data::tardis_fast;
use crate::data::validation;
use crate::data::validation::Pick;
use crate::numbers::Numbers;
use crate::text;
use crate::types::{Event, DEPTH_SNAPSHOT_EVENT, EXCH_EVENT, LOCAL_EVENT};

verus! {

/// The event that a snapshot row stands for.
pub open spec fn snapshot_event<F>(row: DepthRow<F>, zero: F) -> Event<F> {
    tardis::row_event(
        DEPTH_SNAPSHOT_EVENT | row.side,
        row.timestamp,
        row.local_timestamp,
        row.px,
        row.qty,
        zero,
    )
}

/// The converter has put the event out or is collecting it.
spec fn keeps<F>(st: ConvertState<F>, e: Event<F>) -> bool {
    ||| st.events.contains(e)
    ||| st.depth.collecting && (st.depth.bids.contains(e) || st.depth.asks.contains(e))
}

proof fn lemma_in_block<F, P: Fn(&str) -> Option<F>, Lo: Fn(F, F) -> F, Hi: Fn(F, F) -> F>(
    bids: Seq<Event<F>>,
    asks: Seq<Event<F>>,
    e: Event<F>,
    n: Numbers<F, P, Lo, Hi>,
)
    requires
        bids.contains(e) || asks.contains(e),
    ensures
        tardis::snapshot_block(bids, asks, n).contains(e),
{
    let block = tardis::snapshot_block(bids, asks, n);
    if bids.contains(e) {
        let k = choose|k: int| 0 <= k < bids.len() && bids[k] == e;
        assert(block[k + 1] == e);
    } else {
        let k = choose|k: int| 0 <= k < asks.len() && asks[k] == e;
        let skipped = if bids.len() == 0 {
            0
        } else {
            bids.len() + 1
        };
        assert(block[skipped + k + 1] == e);
    }
}

proof fn lemma_push_contains<A>(s: Seq<A>, a: A, e: A)
    requires
        s.contains(e) || a == e,
    ensures
        s.push(a).contains(e),
{
    if a == e {
        assert(s.push(a)[s.len() as int] == e);
    } else {
        let k = choose|k: int| 0 <= k < s.len() && s[k] == e;
        assert(s.push(a)[k] == e);
    }
}

proof fn lemma_concat_contains<A>(s: Seq<A>, t: Seq<A>, e: A)
    requires
        s.contains(e) || t.contains(e),
    ensures
        (s + t).contains(e),
{
    if s.contains(e) {
        let k = choose|k: int| 0 <= k < s.len() && s[k] == e;
        assert((s + t)[k] == e);
    } else {
        let k = choose|k: int| 0 <= k < t.len() && t[k] == e;
        assert((s + t)[s.len() + k] == e);
    }
}

proof fn lemma_row_keeps<F, P: Fn(&str) -> Option<F>, Lo: Fn(F, F) -> F, Hi: Fn(F, F) -> F>(
    st: ConvertState<F>,
    row: DepthRow<F>,
    e: Event<F>,
    n: Numbers<F, P, Lo, Hi>,
)
    requires
        keeps(st, e),
    ensures
        keeps(tardis::with_row(st, row, n), e),
{
    let (depth, events) = tardis::after_row(st.depth, row, n);
    if st.events.contains(e) {
        lemma_concat_contains(st.events, events, e);
    } else if row.is_snapshot {
        if !tardis::skips_snapshot(st.depth) {
            let event = snapshot_event(row, n.zero);
            if row.is_bid && st.depth.bids.contains(e) {
                lemma_push_contains(st.depth.bids, event, e);
            }
            if !row.is_bid && st.depth.asks.contains(e) {
                lemma_push_contains(st.depth.asks, event, e);
            }
        }
    } else {
        lemma_in_block(st.depth.bids, st.depth.asks, e, n);
        lemma_push_contains(
            tardis::snapshot_block(st.depth.bids, st.depth.asks, n),
            events.last(),
            e,
        );
        lemma_concat_contains(st.events, events, e);
    }
}

proof fn lemma_row_is_kept<F, P: Fn(&str) -> Option<F>, Lo: Fn(F, F) -> F, Hi: Fn(F, F) -> F>(
    st: ConvertState<F>,
    row: DepthRow<F>,
    n: Numbers<F, P, Lo, Hi>,
)
    requires
        st.depth.mode == SnapshotMode::Process,
        row.is_snapshot,
    ensures
        keeps(tardis::with_row(st, row, n), snapshot_event(row, n.zero)),
{
    let event = snapshot_event(row, n.zero);
    let (depth, _) = tardis::after_row(st.depth, row, n);
    if row.is_bid {
        assert(depth.bids.last() == event);
        assert(depth.bids[depth.bids.len() - 1] == event);
    } else {
        assert(depth.asks[depth.asks.len() - 1] == event);
    }
}

proof fn lemma_end_has<F, P: Fn(&str) -> Option<F>, Lo: Fn(F, F) -> F, Hi: Fn(F, F) -> F>(
    st: ConvertState<F>,
    e: Event<F>,
    n: Numbers<F, P, Lo, Hi>,
)
    requires
        keeps(st, e),
    ensures
        tardis::at_end(st, n).contains(e),
{
    if !st.events.contains(e) {
        lemma_in_block(st.depth.bids, st.depth.asks, e, n);
    }
    lemma_concat_contains(st.events, tardis::pending_block(st.depth, n), e);
}

proof fn lemma_line_keeps<F, P: Fn(&str) -> Option<F>, Lo: Fn(F, F) -> F, Hi: Fn(F, F) -> F>(
    st: ConvertState<F>,
    file_type: FileType,
    line: Seq<char>,
    e: Event<F>,
    n: Numbers<F, P, Lo, Hi>,
)
    requires
        keeps(st, e),
    ensures
        match tardis::after_line(st, file_type, line, n) {
            Ok(s) => keeps(s, e),
            Err(_) => true,
        },
{
    match file_type {
        FileType::Trades => {
            if let Some(m) = tardis::trade_in(n.parse, line) {
                if st.events.contains(e) {
                    lemma_push_contains(st.events, tardis::trade_event(m, n.zero), e);
                }
            }
        },
        FileType::Depth => {
            if let Some(m) = tardis::depth_in(n.parse, line) {
                lemma_row_keeps(st, tardis::depth_row(m), e, n);
            }
        },
        FileType::BookTicker => {},
    }
}

/// Lines keep the mode, and what the converter has; a snapshot row among them
/// is kept.
proof fn lemma_lines_keep<F, P: Fn(&str) -> Option<F>, Lo: Fn(F, F) -> F, Hi: Fn(F, F) -> F>(
    st: ConvertState<F>,
    file_type: FileType,
    lines: Seq<Seq<char>>,
    e: Event<F>,
    n: Numbers<F, P, Lo, Hi>,
)
    requires
        tardis::after_lines(st, file_type, lines, n) is Ok,
    ensures
        ({
            let s = tardis::after_lines(st, file_type, lines, n)->Ok_0;
            &&& s.depth.mode == st.depth.mode
            &&& keeps(st, e) ==> keeps(s, e)
        }),
    decreases lines.len(),
{
    if lines.len() > 0 {
        lemma_lines_keep(st, file_type, lines.drop_last(), e, n);
        let s = tardis::after_lines(st, file_type, lines.drop_last(), n)->Ok_0;
        if keeps(s, e) {
            lemma_line_keeps(s, file_type, lines.last(), e, n);
        }
    }
}

proof fn lemma_row_in_lines<F, P: Fn(&str) -> Option<F>, Lo: Fn(F, F) -> F, Hi: Fn(F, F) -> F>(
    st: ConvertState<F>,
    lines: Seq<Seq<char>>,
    j: int,
    n: Numbers<F, P, Lo, Hi>,
)
    requires
        st.depth.mode == SnapshotMode::Process,
        tardis::after_lines(st, FileType::Depth, lines, n) is Ok,
        0 <= j < lines.len(),
        tardis::depth_in(n.parse, lines[j]) is Some,
        tardis::depth_in(n.parse, lines[j])->0.is_snapshot,
    ensures
        keeps(
            tardis::after_lines(st, FileType::Depth, lines, n)->Ok_0,
            snapshot_event(
                tardis::depth_row(tardis::depth_in(n.parse, lines[j])->0),
                n.zero,
            ),
        ),
    decreases lines.len(),
{
    let row = tardis::depth_row(tardis::depth_in(n.parse, lines[j])->0);
    let e = snapshot_event(row, n.zero);
    let before = lines.drop_last();
    let s = tardis::after_lines(st, FileType::Depth, before, n)->Ok_0;
    lemma_lines_keep(st, FileType::Depth, before, e, n);
    if j == lines.len() - 1 {
        lemma_row_is_kept(s, row, n);
        if lines[j].len() == 0 {
            assert(text::split(lines[j], ',').len() == 1);
        }
    } else {
        assert(before[j] == lines[j]);
        lemma_row_in_lines(st, before, j, n);
        lemma_line_keeps(s, FileType::Depth, lines.last(), e, n);
    }
}

/// A depth file and a line of it that stands for a snapshot row.
pub open spec fn snapshot_row_at<F, P: Fn(&str) -> Option<F>>(
    parse: P,
    files: Seq<TardisFileModel>,
    i: int,
    j: int,
) -> bool {
    &&& 0 <= i < files.len()
    &&& tardis::header_type(files[i].header) == Some(FileType::Depth)
    &&& 0 <= j < files[i].lines.len()
    &&& tardis::depth_in(parse, files[i].lines[j]) is Some
    &&& tardis::depth_in(parse, files[i].lines[j])->0.is_snapshot
}

proof fn lemma_row_in_files<F, P: Fn(&str) -> Option<F>, Lo: Fn(F, F) -> F, Hi: Fn(F, F) -> F>(
    st: ConvertState<F>,
    files: Seq<TardisFileModel>,
    i: int,
    j: int,
    n: Numbers<F, P, Lo, Hi>,
)
    requires
        st.depth.mode == SnapshotMode::Process,
        tardis::after_files(st, files, n) is Ok,
    ensures
        ({
            let s = tardis::after_files(st, files, n)->Ok_0;
            &&& s.depth.mode == SnapshotMode::Process
            &&& snapshot_row_at(n.parse, files, i, j) ==> keeps(
                s,
                snapshot_event(
                    tardis::depth_row(tardis::depth_in(n.parse, files[i].lines[j])->0),
                    n.zero,
                ),
            )
        }),
    decreases files.len(),
{
    if files.len() > 0 {
        let before = files.drop_last();
        let e = snapshot_event(
            tardis::depth_row(tardis::depth_in(n.parse, files[i].lines[j])->0),
            n.zero,
        );
        lemma_row_in_files(st, before, i, j, n);
        let s = tardis::after_files(st, before, n)->Ok_0;
        let file_type = tardis::header_type(files.last().header)->0;
        lemma_lines_keep(s, file_type, files.last().lines, e, n);
        if snapshot_row_at(n.parse, files, i, j) {
            if i == files.len() - 1 {
                lemma_row_in_lines(s, files[i].lines, j, n);
            } else {
                assert(before[i] == files[i]);
            }
        }
    }
}

/// Where all snapshots are processed, the event of every snapshot row of every
/// depth file is there at the end of the input, also where no regular row
/// follows it.
pub proof fn law_every_snapshot_row_is_handed_on<
    F,
    P: Fn(&str) -> Option<F>,
    Lo: Fn(F, F) -> F,
    Hi: Fn(F, F) -> F,
>(files: Seq<TardisFileModel>, i: int, j: int, n: Numbers<F, P, Lo, Hi>)
    requires
        tardis::after_files(tardis::start_state::<F>(SnapshotMode::Process), files, n) is Ok,
        snapshot_row_at(n.parse, files, i, j),
    ensures
        tardis::at_end(
            tardis::after_files(tardis::start_state::<F>(SnapshotMode::Process), files, n)->Ok_0,
            n,
        ).contains(
            snapshot_event(
                tardis::depth_row(tardis::depth_in(n.parse, files[i].lines[j])->0),
                n.zero,
            ),
        ),
{
    let start = tardis::start_state::<F>(SnapshotMode::Process);
    lemma_row_in_files(start, files, i, j, n);
    lemma_end_has(
        tardis::after_files(start, files, n)->Ok_0,
        snapshot_event(
            tardis::depth_row(tardis::depth_in(n.parse, files[i].lines[j])->0),
            n.zero,
        ),
        n,
    );
}

proof fn lemma_fast_line_keeps<F, P: Fn(&str) -> Option<F>, Lo: Fn(F, F) -> F, Hi: Fn(F, F) -> F>(
    st: ConvertState<F>,
    file_type: tardis_fast::FileType,
    line: Seq<char>,
    e: Event<F>,
    n: Numbers<F, P, Lo, Hi>,
)
    requires
        keeps(st, e),
    ensures
        keeps(tardis_fast::after_fast_line(st, file_type, line, n), e),
{
    let line = text::trimmed_end(line);
    match file_type {
        tardis_fast::FileType::Trades => {
            if let Some(event) = tardis_fast::fast_trade(n.parse, line, n.zero) {
                if st.events.contains(e) {
                    lemma_push_contains(st.events, event, e);
                }
            }
        },
        tardis_fast::FileType::Depth => {
            if let Some(columns) = tardis_fast::fast_depth(n.parse, line, n.zero) {
                lemma_row_keeps(st, tardis_fast::fast_row(columns), e, n);
            }
        },
    }
}

proof fn lemma_fast_lines_keep<F, P: Fn(&str) -> Option<F>, Lo: Fn(F, F) -> F, Hi: Fn(F, F) -> F>(
    st: ConvertState<F>,
    file_type: tardis_fast::FileType,
    lines: Seq<Seq<char>>,
    e: Event<F>,
    n: Numbers<F, P, Lo, Hi>,
)
    ensures
        ({
            let s = tardis_fast::after_fast_lines(st, file_type, lines, n);
            &&& s.depth.mode == st.depth.mode
            &&& keeps(st, e) ==> keeps(s, e)
        }),
    decreases lines.len(),
{
    if lines.len() > 0 {
        lemma_fast_lines_keep(st, file_type, lines.drop_last(), e, n);
        let s = tardis_fast::after_fast_lines(st, file_type, lines.drop_last(), n);
        if keeps(s, e) {
            lemma_fast_line_keeps(s, file_type, lines.last(), e, n);
        }
    }
}

/// The columns of a depth line as it is read from a file.
pub open spec fn fast_columns<F, P: Fn(&str) -> Option<F>, Lo: Fn(F, F) -> F, Hi: Fn(F, F) -> F>(
    line: Seq<char>,
    n: Numbers<F, P, Lo, Hi>,
) -> Option<(i64, i64, bool, bool, F, F)> {
    tardis_fast::fast_depth(n.parse, text::trimmed_end(line), n.zero)
}

proof fn lemma_row_in_fast_lines<
    F,
    P: Fn(&str) -> Option<F>,
    Lo: Fn(F, F) -> F,
    Hi: Fn(F, F) -> F,
>(st: ConvertState<F>, lines: Seq<Seq<char>>, j: int, n: Numbers<F, P, Lo, Hi>)
    requires
        st.depth.mode == SnapshotMode::Process,
        0 <= j < lines.len(),
        fast_columns(lines[j], n) is Some,
        (fast_columns(lines[j], n)->0).2,
    ensures
        keeps(
            tardis_fast::after_fast_lines(st, tardis_fast::FileType::Depth, lines, n),
            snapshot_event(tardis_fast::fast_row(fast_columns(lines[j], n)->0), n.zero),
        ),
    decreases lines.len(),
{
    let row = tardis_fast::fast_row(fast_columns(lines[j], n)->0);
    let e = snapshot_event(row, n.zero);
    let depth = tardis_fast::FileType::Depth;
    let before = lines.drop_last();
    let s = tardis_fast::after_fast_lines(st, depth, before, n);
    lemma_fast_lines_keep(st, depth, before, e, n);
    if j == lines.len() - 1 {
        lemma_row_is_kept(s, row, n);
    } else {
        assert(before[j] == lines[j]);
        lemma_row_in_fast_lines(st, before, j, n);
        lemma_fast_line_keeps(s, depth, lines.last(), e, n);
    }
}

/// A depth file and a line of it that the optimized parser reads as a snapshot row.
pub open spec fn fast_snapshot_row_at<
    F,
    P: Fn(&str) -> Option<F>,
    Lo: Fn(F, F) -> F,
    Hi: Fn(F, F) -> F,
>(files: Seq<TardisFileModel>, i: int, j: int, n: Numbers<F, P, Lo, Hi>) -> bool {
    &&& 0 <= i < files.len()
    &&& tardis_fast::fast_type_of(files[i].header) == Some(tardis_fast::FileType::Depth)
    &&& 0 <= j < files[i].lines.len()
    &&& fast_columns(files[i].lines[j], n) is Some
    &&& (fast_columns(files[i].lines[j], n)->0).2
}

proof fn lemma_row_in_fast_files<
    F,
    P: Fn(&str) -> Option<F>,
    Lo: Fn(F, F) -> F,
    Hi: Fn(F, F) -> F,
>(st: ConvertState<F>, files: Seq<TardisFileModel>, i: int, j: int, n: Numbers<F, P, Lo, Hi>)
    requires
        st.depth.mode == SnapshotMode::Process,
        tardis_fast::after_fast_files(st, files, n) is Ok,
    ensures
        ({
            let s = tardis_fast::after_fast_files(st, files, n)->Ok_0;
            &&& s.depth.mode == SnapshotMode::Process
            &&& fast_snapshot_row_at(files, i, j, n) ==> keeps(
                s,
                snapshot_event(
                    tardis_fast::fast_row(fast_columns(files[i].lines[j], n)->0),
                    n.zero,
                ),
            )
        }),
    decreases files.len(),
{
    if files.len() > 0 {
        let before = files.drop_last();
        let e = snapshot_event(
            tardis_fast::fast_row(fast_columns(files[i].lines[j], n)->0),
            n.zero,
        );
        lemma_row_in_fast_files(st, before, i, j, n);
        let s = tardis_fast::after_fast_files(st, before, n)->Ok_0;
        let file_type = tardis_fast::fast_type_of(files.last().header)->0;
        lemma_fast_lines_keep(s, file_type, files.last().lines, e, n);
        if fast_snapshot_row_at(files, i, j, n) {
            if i == files.len() - 1 {
                lemma_row_in_fast_lines(s, files[i].lines, j, n);
            } else {
                assert(before[i] == files[i]);
            }
        }
    }
}

/// The optimized converter, too, hands on the event of every snapshot row of
/// every depth file where all snapshots are processed.
pub proof fn law_every_fast_snapshot_row_is_handed_on<
    F,
    P: Fn(&str) -> Option<F>,
    Lo: Fn(F, F) -> F,
    Hi: Fn(F, F) -> F,
>(files: Seq<TardisFileModel>, i: int, j: int, n: Numbers<F, P, Lo, Hi>)
    requires
        tardis_fast::after_fast_files(
            tardis::start_state::<F>(SnapshotMode::Process),
            files,
            n,
        ) is Ok,
        fast_snapshot_row_at(files, i, j, n),
    ensures
        tardis::at_end(
            tardis_fast::after_fast_files(
                tardis::start_state::<F>(SnapshotMode::Process),
                files,
                n,
            )->Ok_0,
            n,
        ).contains(
            snapshot_event(
                tardis_fast::fast_row(fast_columns(files[i].lines[j], n)->0),
                n.zero,
            ),
        ),
{
    let start = tardis::start_state::<F>(SnapshotMode::Process);
    lemma_row_in_fast_files(start, files, i, j, n);
    lemma_end_has(
        tardis_fast::after_fast_files(start, files, n)->Ok_0,
        snapshot_event(
            tardis_fast::fast_row(fast_columns(files[i].lines[j], n)->0),
            n.zero,
        ),
        n,
    );
}

proof fn lemma_exch_pick(picks: Seq<Pick>, k: int) -> (i: int)
    requires
        order_laws::exch_picks(picks).contains(k),
    ensures
        0 <= i < picks.len(),
        picks[i].exch,
        picks[i].index == k,
    decreases picks.len(),
{
    let rest = order_laws::exch_picks(picks.drop_first());
    if picks.first().exch && picks.first().index == k {
        0
    } else {
        let all = order_laws::exch_picks(picks);
        let p = choose|p: int| 0 <= p < all.len() && all[p] == k;
        if picks.first().exch {
            assert(rest[p - 1] == k);
        } else {
            assert(rest[p] == k);
        }
        lemma_exch_pick(picks.drop_first(), k) + 1
    }
}

proof fn lemma_local_pick(picks: Seq<Pick>, k: int) -> (i: int)
    requires
        order_laws::local_picks(picks).contains(k),
    ensures
        0 <= i < picks.len(),
        picks[i].local,
        picks[i].index == k,
    decreases picks.len(),
{
    let rest = order_laws::local_picks(picks.drop_first());
    if picks.first().local && picks.first().index == k {
        0
    } else {
        let all = order_laws::local_picks(picks);
        let p = choose|p: int| 0 <= p < all.len() && all[p] == k;
        if picks.first().local {
            assert(rest[p - 1] == k);
        } else {
            assert(rest[p] == k);
        }
        lemma_local_pick(picks.drop_first(), k) + 1
    }
}

/// `a` is the event `e` with flags set and its local timestamp moved.
pub open spec fn is_same_event<F>(a: Event<F>, e: Event<F>, flags: u64, offset: int) -> bool {
    &&& a.ev == e.ev | flags
    &&& a.exch_ts == e.exch_ts
    &&& a.local_ts == (e.local_ts + offset) as i64
    &&& a.px == e.px
    &&& a.qty == e.qty
    &&& a.order_id == e.order_id
    &&& a.ival == e.ival
    &&& a.fval == e.fval
}

/// The event stands in the exchange order, perhaps in the local order at the
/// same place.
pub open spec fn is_in_exch_order<F>(a: Event<F>, e: Event<F>, offset: int) -> bool {
    is_same_event(a, e, EXCH_EVENT, offset) || is_same_event(
        a,
        e,
        EXCH_EVENT | LOCAL_EVENT,
        offset,
    )
}

/// The event stands in the local order, perhaps in the exchange order at the
/// same place.
pub open spec fn is_in_local_order<F>(a: Event<F>, e: Event<F>, offset: int) -> bool {
    is_same_event(a, e, LOCAL_EVENT, offset) || is_same_event(
        a,
        e,
        EXCH_EVENT | LOCAL_EVENT,
        offset,
    )
}

/// The converted data hold an event for the exchange order, and one for the
/// local order: the event itself but for its flags and a moved local timestamp.
pub open spec fn is_converted<F>(data: Seq<Event<F>>, e: Event<F>, offset: int) -> bool {
    &&& exists|j: int| 0 <= j < data.len() && is_in_exch_order(#[trigger] data[j], e, offset)
    &&& exists|j: int| 0 <= j < data.len() && is_in_local_order(#[trigger] data[j], e, offset)
}

/// The last stage loses no event.
pub proof fn law_no_event_is_lost<F>(events: Seq<Event<F>>, base_latency: int, e: Event<F>)
    requires
        events.len() <= usize::MAX,
        events.contains(e),
    ensures
        is_converted(
            normalize::normalized(events, base_latency),
            e,
            validation::local_offset(events, base_latency),
        ),
{
    let moved = normalize::latency_corrected(events, base_latency);
    let data = normalize::normalized(events, base_latency);
    let exch_order = sort::lemma_stable_order_exists(validation::exch_keys(moved));
    let local_order = sort::lemma_stable_order_exists(validation::local_keys(moved));
    let by_exch = normalize::stable_order_of(validation::exch_keys(moved));
    let by_local = normalize::stable_order_of(validation::local_keys(moved));
    let picks = validation::merge_picks(moved, by_exch, by_local, 0, 0);
    order_laws::law_each_event_once_in_both_orders(moved, by_exch, by_local);
    let k = choose|k: int| 0 <= k < events.len() && events[k] == e;
    let name: usize = k as usize;
    assert(by_exch.contains(name));
    assert(by_local.contains(name));
    let p = choose|p: int| 0 <= p < by_exch.len() && by_exch[p] == name;
    assert(order_laws::positions(by_exch)[p] == k);
    let q = choose|q: int| 0 <= q < by_local.len() && by_local[q] == name;
    assert(order_laws::positions(by_local)[q] == k);
    let a = lemma_exch_pick(picks, k);
    let b = lemma_local_pick(picks, k);
    assert(moved[k] == validation::shifted(
        e,
        validation::local_offset(events, base_latency),
    ));
    let offset = validation::local_offset(events, base_latency);
    assert(data[a] == validation::flagged(moved[k], true, picks[a].local));
    assert(data[b] == validation::flagged(moved[k], picks[b].exch, true));
    assert(is_in_exch_order(data[a], e, offset));
    assert(is_in_local_order(data[b], e, offset));
}

/// The last stage makes nothing up: everything that it gives is one of the
/// events, with a flag for each order that it stands in and a moved local
/// timestamp.
pub proof fn law_nothing_is_made_up<F>(events: Seq<Event<F>>, base_latency: int, j: int)
    requires
        events.len() <= usize::MAX,
        0 <= j < normalize::normalized(events, base_latency).len(),
    ensures
        exists|k: int|
            0 <= k < events.len() && {
                let made = normalize::normalized(events, base_latency)[j];
                let offset = validation::local_offset(events, base_latency);
                is_in_exch_order(made, #[trigger] events[k], offset) || is_in_local_order(
                    made,
                    events[k],
                    offset,
                )
            },
        normalize::normalized(events, base_latency).len() <= 2 * events.len(),
{
    let moved = normalize::latency_corrected(events, base_latency);
    let data = normalize::normalized(events, base_latency);
    let exch_order = sort::lemma_stable_order_exists(validation::exch_keys(moved));
    let local_order = sort::lemma_stable_order_exists(validation::local_keys(moved));
    let by_exch = normalize::stable_order_of(validation::exch_keys(moved));
    let by_local = normalize::stable_order_of(validation::local_keys(moved));
    let picks = validation::merge_picks(moved, by_exch, by_local, 0, 0);
    order_laws::law_each_event_once_in_both_orders(moved, by_exch, by_local);
    let k = picks[j].index;
    let offset = validation::local_offset(events, base_latency);
    assert(moved[k] == validation::shifted(events[k], offset));
    assert(data[j] == validation::flagged(moved[k], picks[j].exch, picks[j].local));
    assert(is_in_exch_order(data[j], events[k], offset) || is_in_local_order(
        data[j],
        events[k],
        offset,
    ));
}

/// Where all snapshots are processed, every snapshot row of every depth file
/// stands among the converted events.
pub proof fn law_snapshot_rows_are_converted<
    F,
    P: Fn(&str) -> Option<F>,
    Lo: Fn(F, F) -> F,
    Hi: Fn(F, F) -> F,
>(files: Seq<TardisFileModel>, i: int, j: int, base_latency: int, n: Numbers<F, P, Lo, Hi>)
    requires
        tardis::after_files(tardis::start_state::<F>(SnapshotMode::Process), files, n) is Ok,
        snapshot_row_at(n.parse, files, i, j),
        tardis::at_end(
            tardis::after_files(tardis::start_state::<F>(SnapshotMode::Process), files, n)->Ok_0,
            n,
        ).len() <= usize::MAX,
    ensures
        ({
            let start = tardis::start_state::<F>(SnapshotMode::Process);
            let events = tardis::at_end(tardis::after_files(start, files, n)->Ok_0, n);
            is_converted(
                normalize::normalized(events, base_latency),
                snapshot_event(
                    tardis::depth_row(tardis::depth_in(n.parse, files[i].lines[j])->0),
                    n.zero,
                ),
                validation::local_offset(events, base_latency),
            )
        }),
{
    let start = tardis::start_state::<F>(SnapshotMode::Process);
    law_every_snapshot_row_is_handed_on(files, i, j, n);
    law_no_event_is_lost(
        tardis::at_end(tardis::after_files(start, files, n)->Ok_0, n),
        base_latency,
        snapshot_event(
            tardis::depth_row(tardis::depth_in(n.parse, files[i].lines[j])->0),
            n.zero,
        ),
    );
}

} // verus!
