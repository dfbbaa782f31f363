//! What becomes of the rows of trade and depth files.

use vstd::multiset::Multiset;
use vstd::prelude::*;

use crate::data::tardis;
use crate::data::tardis::{
    ConvertState, DepthRecordModel, DepthRow, DepthState, FileType, SnapshotMode, TardisFileModel,
    TradeModel,
};
use crate::numbers;
use crate::numbers::Numbers;
use crate::text;
use crate::types::{
    Event, BUY_EVENT, DEPTH_CLEAR_EVENT, DEPTH_EVENT, DEPTH_SNAPSHOT_EVENT, SELL_EVENT, TRADE_EVENT,
};

verus! {

/// The flag of a side by its name: bids are bought, asks are sold.
pub open spec fn flag_of(side: Seq<char>) -> u64 {
    if side == "bid"@ || side == "buy"@ {
        BUY_EVENT
    } else if side == "ask"@ || side == "sell"@ {
        SELL_EVENT
    } else {
        0
    }
}

/// The event says what a trade says, with its times in nanoseconds.
pub open spec fn says_trade<F>(e: Event<F>, m: TradeModel<F>, zero: F) -> bool {
    &&& e.ev == TRADE_EVENT | (if m.side == "buy"@ {
        BUY_EVENT
    } else if m.side == "sell"@ {
        SELL_EVENT
    } else {
        0
    })
    &&& e.exch_ts == (m.timestamp * 1000) as i64
    &&& e.local_ts == (m.local_timestamp * 1000) as i64
    &&& e.px == m.price
    &&& e.qty == m.amount
    &&& e.order_id == 0
    &&& e.ival == 0
    &&& e.fval == zero
}

/// The event says what a depth record says, with its times in nanoseconds, as
/// an event of the given kind.
pub open spec fn says_depth<F>(e: Event<F>, kind: u64, m: DepthRecordModel<F>, zero: F) -> bool {
    &&& e.ev == kind | flag_of(m.side)
    &&& e.exch_ts == (m.timestamp * 1000) as i64
    &&& e.local_ts == (m.local_timestamp * 1000) as i64
    &&& e.px == m.price
    &&& e.qty == m.amount
    &&& e.order_id == 0
    &&& e.ival == 0
    &&& e.fval == zero
}

/// A trade becomes an event that says what it says.
pub proof fn law_trade_event_says_the_trade<F>(m: TradeModel<F>, zero: F)
    ensures
        says_trade(tardis::trade_event(m, zero), m, zero),
{
}

/// What a line adds of trades and regular depth updates: the event of a trade
/// line, or of a depth line that belongs to no snapshot.
pub open spec fn added_by<F, P: Fn(&str) -> Option<F>, Lo: Fn(F, F) -> F, Hi: Fn(F, F) -> F>(
    file_type: FileType,
    line: Seq<char>,
    e: Option<Event<F>>,
    n: Numbers<F, P, Lo, Hi>,
) -> bool {
    match file_type {
        FileType::Trades => match tardis::trade_in(n.parse, line) {
            Some(m) => e is Some && says_trade(e->0, m, n.zero),
            None => e is None,
        },
        FileType::Depth => match tardis::depth_in(n.parse, line) {
            Some(m) => if m.is_snapshot {
                e is None
            } else {
                e is Some && says_depth(e->0, DEPTH_EVENT, m, n.zero)
            },
            None => e is None,
        },
        FileType::BookTicker => e is None,
    }
}

/// The trade or regular depth update that a line adds.
pub open spec fn added<F, P: Fn(&str) -> Option<F>, Lo: Fn(F, F) -> F, Hi: Fn(F, F) -> F>(
    file_type: FileType,
    line: Seq<char>,
    n: Numbers<F, P, Lo, Hi>,
) -> Option<Event<F>> {
    choose|e: Option<Event<F>>| added_by(file_type, line, e, n)
}

/// The event is a trade or a regular depth update.
pub open spec fn is_regular<F>(e: Event<F>) -> bool {
    e.ev & 0xFF == TRADE_EVENT || e.ev & 0xFF == DEPTH_EVENT
}

/// The trades and regular depth updates among events, in turn.
pub open spec fn regular<F>(events: Seq<Event<F>>) -> Seq<Event<F>>
    decreases events.len(),
{
    if events.len() == 0 {
        Seq::empty()
    } else if is_regular(events.last()) {
        regular(events.drop_last()).push(events.last())
    } else {
        regular(events.drop_last())
    }
}

/// The trades and regular depth updates that lines add, in turn.
pub open spec fn added_in_lines<
    F,
    P: Fn(&str) -> Option<F>,
    Lo: Fn(F, F) -> F,
    Hi: Fn(F, F) -> F,
>(file_type: FileType, lines: Seq<Seq<char>>, n: Numbers<F, P, Lo, Hi>) -> Seq<Event<F>>
    decreases lines.len(),
{
    if lines.len() == 0 {
        Seq::empty()
    } else {
        let front = added_in_lines(file_type, lines.drop_last(), n);
        match added(file_type, lines.last(), n) {
            Some(e) => front.push(e),
            None => front,
        }
    }
}

/// The trades and regular depth updates that files add, in turn.
pub open spec fn added_in_files<
    F,
    P: Fn(&str) -> Option<F>,
    Lo: Fn(F, F) -> F,
    Hi: Fn(F, F) -> F,
>(files: Seq<TardisFileModel>, n: Numbers<F, P, Lo, Hi>) -> Seq<Event<F>>
    decreases files.len(),
{
    if files.len() == 0 {
        Seq::empty()
    } else {
        let front = added_in_files(files.drop_last(), n);
        match tardis::header_type(files.last().header) {
            Some(file_type) => front + added_in_lines(file_type, files.last().lines, n),
            None => front,
        }
    }
}

proof fn lemma_kind_of(kind: u64, side: u64)
    requires
        kind <= 7,
        side == 0 || side == BUY_EVENT || side == SELL_EVENT,
    ensures
        (kind | side) & 0xFF == kind,
{
    assert((kind | side) & 0xFF == kind) by (bit_vector)
        requires
            kind <= 7,
            side == 0 || side == BUY_EVENT || side == SELL_EVENT,
    ;
}

proof fn lemma_regular_concat<F>(a: Seq<Event<F>>, b: Seq<Event<F>>)
    ensures
        regular(a + b) == regular(a) + regular(b),
    decreases b.len(),
{
    if b.len() == 0 {
        assert(a + b =~= a);
        assert(regular(a) + regular(b) =~= regular(a));
    } else {
        assert((a + b).drop_last() =~= a + b.drop_last());
        lemma_regular_concat(a, b.drop_last());
        assert(regular(a + b) =~= regular(a) + regular(b));
    }
}

/// No event is a trade or a regular depth update.
spec fn none_regular<F>(events: Seq<Event<F>>) -> bool {
    forall|i: int| 0 <= i < events.len() ==> !is_regular(#[trigger] events[i])
}

proof fn lemma_none_regular<F>(events: Seq<Event<F>>)
    requires
        none_regular(events),
    ensures
        regular(events) == Seq::<Event<F>>::empty(),
    decreases events.len(),
{
    if events.len() > 0 {
        assert(!is_regular(events[events.len() - 1]));
        lemma_none_regular(events.drop_last());
    }
}

spec fn collects_snapshots<F>(st: DepthState<F>) -> bool {
    none_regular(st.bids) && none_regular(st.asks)
}

proof fn lemma_block_is_not_regular<
    F,
    P: Fn(&str) -> Option<F>,
    Lo: Fn(F, F) -> F,
    Hi: Fn(F, F) -> F,
>(st: DepthState<F>, n: Numbers<F, P, Lo, Hi>)
    requires
        collects_snapshots(st),
    ensures
        none_regular(tardis::snapshot_block(st.bids, st.asks, n)),
{
    lemma_kind_of(DEPTH_CLEAR_EVENT, BUY_EVENT);
    lemma_kind_of(DEPTH_CLEAR_EVENT, SELL_EVENT);
    law_snapshot_block(st.bids, st.asks, n);
    let block = tardis::snapshot_block(st.bids, st.asks, n);
    let b: int = if st.bids.len() == 0 {
        0
    } else {
        st.bids.len() as int + 1
    };
    assert forall|i: int| 0 <= i < block.len() implies !is_regular(#[trigger] block[i]) by {
        if i < b {
            if i > 0 {
                assert(block[1 + (i - 1)] == st.bids[i - 1]);
            }
        } else if i > b {
            assert(block[b + 1 + (i - b - 1)] == st.asks[i - b - 1]);
        }
    }
}

/// A clear event of a side: at the times of the side's first row, up to a
/// price, without a quantity.
pub open spec fn clears<F>(e: Event<F>, side: u64, first: Event<F>, px: F, zero: F) -> bool {
    &&& e.ev == DEPTH_CLEAR_EVENT | side
    &&& e.exch_ts == first.exch_ts
    &&& e.local_ts == first.local_ts
    &&& e.px == px
    &&& e.qty == zero
    &&& e.order_id == 0
    &&& e.ival == 0
    &&& e.fval == zero
}

/// A snapshot is handed on side by side, bids first: where the side has rows,
/// a clear event that reaches to its outermost price, and then all its rows in
/// turn.
pub proof fn law_snapshot_block<F, P: Fn(&str) -> Option<F>, Lo: Fn(F, F) -> F, Hi: Fn(F, F) -> F>(
    bids: Seq<Event<F>>,
    asks: Seq<Event<F>>,
    n: Numbers<F, P, Lo, Hi>,
)
    ensures
        ({
            let block = tardis::snapshot_block(bids, asks, n);
            let b: int = if bids.len() == 0 {
                0
            } else {
                bids.len() as int + 1
            };
            let a: int = if asks.len() == 0 {
                0
            } else {
                asks.len() as int + 1
            };
            &&& block.len() == b + a
            &&& b > 0 ==> clears(
                block[0],
                BUY_EVENT,
                bids[0],
                numbers::folded(n.lower, n.highest, bids.map_values(|e: Event<F>| e.px)),
                n.zero,
            )
            &&& forall|i: int| 0 <= i < bids.len() ==> block[1 + i] == #[trigger] bids[i]
            &&& a > 0 ==> clears(
                block[b],
                SELL_EVENT,
                asks[0],
                numbers::folded(n.higher, n.lowest, asks.map_values(|e: Event<F>| e.px)),
                n.zero,
            )
            &&& forall|i: int| 0 <= i < asks.len() ==> block[b + 1 + i] == #[trigger] asks[i]
        }),
{
    assert(tardis::prices(bids) =~= bids.map_values(|e: Event<F>| e.px));
    assert(tardis::prices(asks) =~= asks.map_values(|e: Event<F>| e.px));
}

/// Where `pick` never gives more than either of two numbers, by an order that
/// can be chained, the clear price is not above any price of the rows; turned
/// around, the same holds of the higher one.
pub proof fn law_folded_bounds_all<F, G: Fn(F, F) -> F>(
    pick: G,
    start: F,
    values: Seq<F>,
    le: spec_fn(F, F) -> bool,
)
    requires
        forall|a: F, b: F|
            le(#[trigger] numbers::combined(pick, a, b), a) && le(
                numbers::combined(pick, a, b),
                b,
            ),
        forall|a: F, b: F, c: F| #[trigger] le(a, b) && #[trigger] le(b, c) ==> le(a, c),
        forall|a: F| #[trigger] le(a, a),
    ensures
        le(numbers::folded(pick, start, values), start),
        forall|i: int|
            0 <= i < values.len() ==> le(
                numbers::folded(pick, start, values),
                #[trigger] values[i],
            ),
    decreases values.len(),
{
    if values.len() > 0 {
        let front = values.drop_last();
        law_folded_bounds_all(pick, start, front, le);
        let before = numbers::folded(pick, start, front);
        let all = numbers::folded(pick, start, values);
        assert(le(numbers::combined(pick, before, values.last()), before));
        assert forall|i: int| 0 <= i < values.len() implies le(all, #[trigger] values[i]) by {
            if i < front.len() {
                assert(front[i] == values[i]);
                assert(le(before, front[i]));
            }
        }
    }
}

/// Snapshot rows are left out in every case, at the start of the day only, or
/// never, as the mode says; the start of the day ends with the first regular
/// row and not before.
pub proof fn law_modes<F, P: Fn(&str) -> Option<F>, Lo: Fn(F, F) -> F, Hi: Fn(F, F) -> F>(
    st: DepthState<F>,
    row: DepthRow<F>,
    n: Numbers<F, P, Lo, Hi>,
)
    ensures
        st.mode == SnapshotMode::Ignore ==> tardis::skips_snapshot(st),
        st.mode == SnapshotMode::IgnoreSod ==> tardis::skips_snapshot(st) == st.start_of_day,
        st.mode == SnapshotMode::Process ==> !tardis::skips_snapshot(st),
        ({
            let after = tardis::after_row(st, row, n).0;
            &&& after.mode == st.mode
            &&& after.start_of_day == (st.start_of_day && row.is_snapshot)
            &&& row.is_snapshot && tardis::skips_snapshot(st) ==> after == st
        }),
{
}

/// A snapshot row that is not left out is put behind the rows of its side; the
/// first one of a snapshot begins with empty sides. Nothing is put out yet.
pub proof fn law_snapshot_row_is_collected<
    F,
    P: Fn(&str) -> Option<F>,
    Lo: Fn(F, F) -> F,
    Hi: Fn(F, F) -> F,
>(st: ConvertState<F>, m: DepthRecordModel<F>, n: Numbers<F, P, Lo, Hi>)
    requires
        m.is_snapshot,
        !tardis::skips_snapshot(st.depth),
    ensures
        ({
            let after = tardis::with_row(st, tardis::depth_row(m), n);
            let bids = if st.depth.collecting {
                st.depth.bids
            } else {
                Seq::empty()
            };
            let asks = if st.depth.collecting {
                st.depth.asks
            } else {
                Seq::empty()
            };
            &&& after.events == st.events
            &&& after.depth.collecting
            &&& if flag_of(m.side) == BUY_EVENT {
                &&& after.depth.bids.len() == bids.len() + 1
                &&& after.depth.bids.drop_last() == bids
                &&& says_depth(after.depth.bids.last(), DEPTH_SNAPSHOT_EVENT, m, n.zero)
                &&& after.depth.asks == asks
            } else {
                &&& after.depth.asks.len() == asks.len() + 1
                &&& after.depth.asks.drop_last() == asks
                &&& says_depth(after.depth.asks.last(), DEPTH_SNAPSHOT_EVENT, m, n.zero)
                &&& after.depth.bids == bids
            }
        }),
{
    let after = tardis::with_row(st, tardis::depth_row(m), n);
    assert(after.events =~= st.events);
    let bids = if st.depth.collecting {
        st.depth.bids
    } else {
        Seq::empty()
    };
    let asks = if st.depth.collecting {
        st.depth.asks
    } else {
        Seq::empty()
    };
    lemma_side_flags_differ();
    if flag_of(m.side) == BUY_EVENT {
        assert(after.depth.bids.drop_last() =~= bids);
    } else {
        assert(after.depth.asks.drop_last() =~= asks);
    }
}

proof fn lemma_side_flags_differ()
    ensures
        BUY_EVENT != SELL_EVENT,
        BUY_EVENT != 0,
{
}

/// A regular row is put out behind everything before it; a snapshot that was
/// being collected is put out whole right before it, and is done with.
pub proof fn law_regular_row_is_put_out<
    F,
    P: Fn(&str) -> Option<F>,
    Lo: Fn(F, F) -> F,
    Hi: Fn(F, F) -> F,
>(st: ConvertState<F>, m: DepthRecordModel<F>, n: Numbers<F, P, Lo, Hi>)
    requires
        !m.is_snapshot,
    ensures
        ({
            let after = tardis::with_row(st, tardis::depth_row(m), n);
            let block = if st.depth.collecting {
                tardis::snapshot_block(st.depth.bids, st.depth.asks, n)
            } else {
                Seq::empty()
            };
            &&& after.events.len() == st.events.len() + block.len() + 1
            &&& after.events.take(st.events.len() as int) == st.events
            &&& after.events.subrange(
                st.events.len() as int,
                st.events.len() as int + block.len(),
            ) == block
            &&& says_depth(after.events.last(), DEPTH_EVENT, m, n.zero)
            &&& !after.depth.collecting
        }),
{
    let after = tardis::with_row(st, tardis::depth_row(m), n);
    let block = if st.depth.collecting {
        tardis::snapshot_block(st.depth.bids, st.depth.asks, n)
    } else {
        Seq::empty()
    };
    assert(after.events.take(st.events.len() as int) =~= st.events);
    assert(after.events.subrange(
        st.events.len() as int,
        st.events.len() as int + block.len(),
    ) =~= block);
}

proof fn lemma_added<F, P: Fn(&str) -> Option<F>, Lo: Fn(F, F) -> F, Hi: Fn(F, F) -> F>(
    file_type: FileType,
    line: Seq<char>,
    e: Option<Event<F>>,
    n: Numbers<F, P, Lo, Hi>,
)
    requires
        added_by(file_type, line, e, n),
    ensures
        added(file_type, line, n) == e,
{
    let other = added(file_type, line, n);
    assert(added_by(file_type, line, other, n));
    if e is Some {
        assert(other->0 == e->0);
    }
}

/// The converter after a line has what it had, and what the line adds.
proof fn lemma_line_adds<F, P: Fn(&str) -> Option<F>, Lo: Fn(F, F) -> F, Hi: Fn(F, F) -> F>(
    st: ConvertState<F>,
    file_type: FileType,
    line: Seq<char>,
    n: Numbers<F, P, Lo, Hi>,
)
    requires
        collects_snapshots(st.depth),
        tardis::after_line(st, file_type, line, n) is Ok,
    ensures
        ({
            let s = tardis::after_line(st, file_type, line, n)->Ok_0;
            &&& collects_snapshots(s.depth)
            &&& regular(s.events) == (match added(file_type, line, n) {
                Some(e) => regular(st.events).push(e),
                None => regular(st.events),
            })
        }),
{
    let s = tardis::after_line(st, file_type, line, n)->Ok_0;
    if line.len() == 0 {
        assert(text::split(line, ',').len() == 1);
        lemma_added(file_type, line, None, n);
    } else {
        match file_type {
            FileType::Trades => match tardis::trade_in(n.parse, line) {
                Some(m) => {
                    let e = tardis::trade_event(m, n.zero);
                    lemma_added(file_type, line, Some(e), n);
                    lemma_kind_of(TRADE_EVENT, tardis::trade_side(m.side));
                    assert(s.events.drop_last() =~= st.events);
                },
                None => {
                    lemma_added(file_type, line, None, n);
                },
            },
            FileType::Depth => match tardis::depth_in(n.parse, line) {
                Some(m) => {
                    let row = tardis::depth_row(m);
                    lemma_kind_of(DEPTH_EVENT, flag_of(m.side));
                    lemma_kind_of(DEPTH_SNAPSHOT_EVENT, flag_of(m.side));
                    if m.is_snapshot {
                        lemma_added(file_type, line, None, n);
                        assert(s.events =~= st.events);
                        if !tardis::skips_snapshot(st.depth) {
                            law_snapshot_row_is_collected(st, m, n);
                        }
                    } else {
                        law_regular_row_is_put_out(st, m, n);
                        let e = s.events.last();
                        lemma_added(file_type, line, Some(e), n);
                        let front = s.events.drop_last();
                        let block = if st.depth.collecting {
                            tardis::snapshot_block(st.depth.bids, st.depth.asks, n)
                        } else {
                            Seq::empty()
                        };
                        lemma_block_is_not_regular(st.depth, n);
                        lemma_none_regular(block);
                        lemma_regular_concat(st.events, block);
                        assert(front =~= st.events + block);
                        assert(regular(front) =~= regular(st.events));
                    }
                },
                None => {
                    lemma_added(file_type, line, None, n);
                },
            },
            FileType::BookTicker => {},
        }
    }
}

proof fn lemma_lines_add<F, P: Fn(&str) -> Option<F>, Lo: Fn(F, F) -> F, Hi: Fn(F, F) -> F>(
    st: ConvertState<F>,
    file_type: FileType,
    lines: Seq<Seq<char>>,
    n: Numbers<F, P, Lo, Hi>,
)
    requires
        collects_snapshots(st.depth),
        tardis::after_lines(st, file_type, lines, n) is Ok,
    ensures
        ({
            let s = tardis::after_lines(st, file_type, lines, n)->Ok_0;
            &&& collects_snapshots(s.depth)
            &&& regular(s.events) == regular(st.events) + added_in_lines(file_type, lines, n)
        }),
    decreases lines.len(),
{
    let added_here = added_in_lines(file_type, lines, n);
    if lines.len() == 0 {
        assert(regular(st.events) + added_here =~= regular(st.events));
    } else {
        lemma_lines_add(st, file_type, lines.drop_last(), n);
        let before = tardis::after_lines(st, file_type, lines.drop_last(), n)->Ok_0;
        lemma_line_adds(before, file_type, lines.last(), n);
        let s = tardis::after_lines(st, file_type, lines, n)->Ok_0;
        assert(regular(s.events) =~= regular(st.events) + added_here);
    }
}

proof fn lemma_files_add<F, P: Fn(&str) -> Option<F>, Lo: Fn(F, F) -> F, Hi: Fn(F, F) -> F>(
    st: ConvertState<F>,
    files: Seq<TardisFileModel>,
    n: Numbers<F, P, Lo, Hi>,
)
    requires
        collects_snapshots(st.depth),
        tardis::after_files(st, files, n) is Ok,
    ensures
        ({
            let s = tardis::after_files(st, files, n)->Ok_0;
            &&& collects_snapshots(s.depth)
            &&& regular(s.events) == regular(st.events) + added_in_files(files, n)
        }),
    decreases files.len(),
{
    let added_here = added_in_files(files, n);
    if files.len() == 0 {
        assert(regular(st.events) + added_here =~= regular(st.events));
    } else {
        lemma_files_add(st, files.drop_last(), n);
        let before = tardis::after_files(st, files.drop_last(), n)->Ok_0;
        let file_type = tardis::header_type(files.last().header)->0;
        lemma_lines_add(before, file_type, files.last().lines, n);
        let s = tardis::after_files(st, files, n)->Ok_0;
        assert(regular(s.events) =~= regular(st.events) + added_here);
    }
}

/// In every mode the trades and regular depth updates of the converted files
/// are those of the lines: one event for each trade line and each depth line
/// that belongs to no snapshot, with what the line says, in the order of the
/// lines, and no others.
pub proof fn law_every_regular_line_is_converted<
    F,
    P: Fn(&str) -> Option<F>,
    Lo: Fn(F, F) -> F,
    Hi: Fn(F, F) -> F,
>(mode: SnapshotMode, files: Seq<TardisFileModel>, n: Numbers<F, P, Lo, Hi>)
    requires
        tardis::after_files(tardis::start_state::<F>(mode), files, n) is Ok,
    ensures
        regular(
            tardis::at_end(
                tardis::after_files(tardis::start_state::<F>(mode), files, n)->Ok_0,
                n,
            ),
        ) == added_in_files(files, n),
{
    let start = tardis::start_state::<F>(mode);
    lemma_files_add(start, files, n);
    let s = tardis::after_files(start, files, n)->Ok_0;
    let pending = tardis::pending_block(s.depth, n);
    lemma_block_is_not_regular(s.depth, n);
    lemma_none_regular(pending);
    lemma_regular_concat(s.events, pending);
    assert(regular(tardis::at_end(s, n)) =~= regular(s.events));
    assert(Seq::<Event<F>>::empty() + added_in_files(files, n) =~= added_in_files(files, n));
}

/// Every trade line and every regular depth line adds exactly one event, which
/// says what the line says; other lines add none.
pub proof fn law_what_a_line_adds<F, P: Fn(&str) -> Option<F>, Lo: Fn(F, F) -> F, Hi: Fn(F, F) -> F>(
    file_type: FileType,
    line: Seq<char>,
    n: Numbers<F, P, Lo, Hi>,
)
    ensures
        added_by(file_type, line, added(file_type, line, n), n),
{
    match file_type {
        FileType::Trades => match tardis::trade_in(n.parse, line) {
            Some(m) => {
                lemma_added(file_type, line, Some(tardis::trade_event(m, n.zero)), n);
            },
            None => {
                lemma_added(file_type, line, None, n);
            },
        },
        FileType::Depth => match tardis::depth_in(n.parse, line) {
            Some(m) => {
                if m.is_snapshot {
                    lemma_added(file_type, line, None, n);
                } else {
                    let st = tardis::start_state::<F>(SnapshotMode::Process);
                    law_regular_row_is_put_out(st, m, n);
                    let e = tardis::with_row(st, tardis::depth_row(m), n).events.last();
                    lemma_added(file_type, line, Some(e), n);
                }
            },
            None => {
                lemma_added(file_type, line, None, n);
            },
        },
        FileType::BookTicker => {
            lemma_added(file_type, line, None, n);
        },
    }
}

/// The snapshot events among events, as often as they occur.
pub open spec fn snapshots<F>(events: Seq<Event<F>>) -> Multiset<Event<F>>
    decreases events.len(),
{
    if events.len() == 0 {
        Multiset::empty()
    } else if events.last().ev & 0xFF == DEPTH_SNAPSHOT_EVENT {
        snapshots(events.drop_last()).insert(events.last())
    } else {
        snapshots(events.drop_last())
    }
}

proof fn lemma_snapshots_concat<F>(a: Seq<Event<F>>, b: Seq<Event<F>>)
    ensures
        snapshots(a + b) == snapshots(a).add(snapshots(b)),
    decreases b.len(),
{
    if b.len() == 0 {
        assert(a + b =~= a);
        assert(snapshots(a).add(snapshots(b)) =~= snapshots(a));
    } else {
        assert((a + b).drop_last() =~= a + b.drop_last());
        lemma_snapshots_concat(a, b.drop_last());
        assert(snapshots(a + b) =~= snapshots(a).add(snapshots(b)));
    }
}

/// All snapshot events of a converter: those put out and those collected.
spec fn held<F, P: Fn(&str) -> Option<F>, Lo: Fn(F, F) -> F, Hi: Fn(F, F) -> F>(
    st: ConvertState<F>,
    n: Numbers<F, P, Lo, Hi>,
) -> Multiset<Event<F>> {
    snapshots(tardis::at_end(st, n))
}

proof fn lemma_snapshots_of_block<
    F,
    P: Fn(&str) -> Option<F>,
    Lo: Fn(F, F) -> F,
    Hi: Fn(F, F) -> F,
>(bids: Seq<Event<F>>, asks: Seq<Event<F>>, n: Numbers<F, P, Lo, Hi>)
    ensures
        snapshots(tardis::snapshot_block(bids, asks, n)) == snapshots(bids).add(snapshots(asks)),
{
    lemma_kind_of(DEPTH_CLEAR_EVENT, BUY_EVENT);
    lemma_kind_of(DEPTH_CLEAR_EVENT, SELL_EVENT);
    law_snapshot_block(bids, asks, n);
    let block = tardis::snapshot_block(bids, asks, n);
    let b: int = if bids.len() == 0 {
        0
    } else {
        bids.len() as int + 1
    };
    let left = block.take(b);
    let right = block.skip(b);
    assert(left + right =~= block);
    lemma_snapshots_concat(left, right);
    lemma_snapshots_of_side(left, bids);
    lemma_snapshots_of_side(right, asks);
}

proof fn lemma_snapshots_of_side<F>(side: Seq<Event<F>>, rows: Seq<Event<F>>)
    requires
        rows.len() == 0 ==> side.len() == 0,
        rows.len() > 0 ==> side.len() == rows.len() + 1 && side[0].ev & 0xFF
            == DEPTH_CLEAR_EVENT,
        forall|i: int| 0 <= i < rows.len() ==> side[1 + i] == #[trigger] rows[i],
    ensures
        snapshots(side) == snapshots(rows),
{
    if rows.len() > 0 {
        let first = seq![side[0]];
        assert(side =~= first + rows);
        lemma_snapshots_concat(first, rows);
        assert(first.drop_last() =~= Seq::empty());
        assert(first.last() == side[0]);
        assert(snapshots(first.drop_last()) =~= Multiset::empty());
        assert(snapshots(first) =~= Multiset::empty());
        assert(snapshots(first).add(snapshots(rows)) =~= snapshots(rows));
    }
}

/// The snapshot rows that lines of a file stand for, as often as they occur.
pub open spec fn snapshot_rows<
    F,
    P: Fn(&str) -> Option<F>,
    Lo: Fn(F, F) -> F,
    Hi: Fn(F, F) -> F,
>(file_type: FileType, lines: Seq<Seq<char>>, n: Numbers<F, P, Lo, Hi>) -> Multiset<Event<F>>
    decreases lines.len(),
{
    if lines.len() == 0 {
        Multiset::empty()
    } else {
        let front = snapshot_rows(file_type, lines.drop_last(), n);
        match tardis::depth_in(n.parse, lines.last()) {
            Some(m) => if file_type == FileType::Depth && m.is_snapshot {
                front.insert(
                    Event {
                        ev: DEPTH_SNAPSHOT_EVENT | flag_of(m.side),
                        exch_ts: (m.timestamp * 1000) as i64,
                        local_ts: (m.local_timestamp * 1000) as i64,
                        px: m.price,
                        qty: m.amount,
                        order_id: 0,
                        ival: 0,
                        fval: n.zero,
                    },
                )
            } else {
                front
            },
            None => front,
        }
    }
}

/// The snapshot rows that files stand for, as often as they occur.
pub open spec fn snapshot_rows_of_files<
    F,
    P: Fn(&str) -> Option<F>,
    Lo: Fn(F, F) -> F,
    Hi: Fn(F, F) -> F,
>(files: Seq<TardisFileModel>, n: Numbers<F, P, Lo, Hi>) -> Multiset<Event<F>>
    decreases files.len(),
{
    if files.len() == 0 {
        Multiset::empty()
    } else {
        let front = snapshot_rows_of_files(files.drop_last(), n);
        match tardis::header_type(files.last().header) {
            Some(file_type) => front.add(snapshot_rows(file_type, files.last().lines, n)),
            None => front,
        }
    }
}

proof fn lemma_held<F, P: Fn(&str) -> Option<F>, Lo: Fn(F, F) -> F, Hi: Fn(F, F) -> F>(
    st: ConvertState<F>,
    n: Numbers<F, P, Lo, Hi>,
)
    ensures
        held(st, n) == (if st.depth.collecting {
            snapshots(st.events).add(snapshots(st.depth.bids).add(snapshots(st.depth.asks)))
        } else {
            snapshots(st.events)
        }),
{
    lemma_snapshots_concat(st.events, tardis::pending_block(st.depth, n));
    lemma_snapshots_of_block(st.depth.bids, st.depth.asks, n);
    if !st.depth.collecting {
        assert(tardis::at_end(st, n) =~= st.events);
    }
}

proof fn lemma_line_holds<F, P: Fn(&str) -> Option<F>, Lo: Fn(F, F) -> F, Hi: Fn(F, F) -> F>(
    st: ConvertState<F>,
    file_type: FileType,
    lines: Seq<Seq<char>>,
    before: Multiset<Event<F>>,
    n: Numbers<F, P, Lo, Hi>,
)
    requires
        st.depth.mode == SnapshotMode::Process,
        lines.len() > 0,
        tardis::after_line(st, file_type, lines.last(), n) is Ok,
        held(st, n) == before.add(snapshot_rows(file_type, lines.drop_last(), n)),
    ensures
        ({
            let s = tardis::after_line(st, file_type, lines.last(), n)->Ok_0;
            &&& s.depth.mode == SnapshotMode::Process
            &&& held(s, n) == before.add(snapshot_rows(file_type, lines, n))
        }),
{
    let line = lines.last();
    let s = tardis::after_line(st, file_type, line, n)->Ok_0;
    lemma_held(st, n);
    lemma_held(s, n);
    if line.len() == 0 {
        assert(text::split(line, ',').len() == 1);
    } else if file_type == FileType::Trades {
        if let Some(m) = tardis::trade_in(n.parse, line) {
            lemma_kind_of(TRADE_EVENT, tardis::trade_side(m.side));
            assert(s.events.drop_last() =~= st.events);
        }
    } else if file_type == FileType::Depth {
        if let Some(m) = tardis::depth_in(n.parse, line) {
            lemma_kind_of(DEPTH_EVENT, flag_of(m.side));
            lemma_kind_of(DEPTH_SNAPSHOT_EVENT, flag_of(m.side));
            if m.is_snapshot {
                law_snapshot_row_is_collected(st, m, n);
                let rows = snapshot_rows(file_type, lines, n);
                assert(held(s, n) =~= before.add(rows));
            } else {
                law_regular_row_is_put_out(st, m, n);
                let block = if st.depth.collecting {
                    tardis::snapshot_block(st.depth.bids, st.depth.asks, n)
                } else {
                    Seq::empty()
                };
                assert(s.events.drop_last() =~= st.events + block);
                lemma_snapshots_concat(st.events, block);
                lemma_snapshots_of_block(st.depth.bids, st.depth.asks, n);
                if !st.depth.collecting {
                    assert(st.events + block =~= st.events);
                }
            }
        }
    }
}

proof fn lemma_lines_hold<F, P: Fn(&str) -> Option<F>, Lo: Fn(F, F) -> F, Hi: Fn(F, F) -> F>(
    st: ConvertState<F>,
    file_type: FileType,
    lines: Seq<Seq<char>>,
    n: Numbers<F, P, Lo, Hi>,
)
    requires
        st.depth.mode == SnapshotMode::Process,
        tardis::after_lines(st, file_type, lines, n) is Ok,
    ensures
        ({
            let s = tardis::after_lines(st, file_type, lines, n)->Ok_0;
            &&& s.depth.mode == SnapshotMode::Process
            &&& held(s, n) == held(st, n).add(snapshot_rows(file_type, lines, n))
        }),
    decreases lines.len(),
{
    if lines.len() == 0 {
        assert(held(st, n).add(snapshot_rows(file_type, lines, n)) =~= held(st, n));
    } else {
        lemma_lines_hold(st, file_type, lines.drop_last(), n);
        let s = tardis::after_lines(st, file_type, lines.drop_last(), n)->Ok_0;
        lemma_line_holds(s, file_type, lines, held(st, n), n);
    }
}

/// Where all snapshots are processed, the snapshot events are those of the
/// snapshot rows of the files, each exactly as often as its row occurs.
pub proof fn law_each_snapshot_row_once<
    F,
    P: Fn(&str) -> Option<F>,
    Lo: Fn(F, F) -> F,
    Hi: Fn(F, F) -> F,
>(files: Seq<TardisFileModel>, n: Numbers<F, P, Lo, Hi>)
    requires
        tardis::after_files(tardis::start_state::<F>(SnapshotMode::Process), files, n) is Ok,
    ensures
        ({
            let s = tardis::after_files(
                tardis::start_state::<F>(SnapshotMode::Process),
                files,
                n,
            )->Ok_0;
            &&& s.depth.mode == SnapshotMode::Process
            &&& snapshots(tardis::at_end(s, n)) == snapshot_rows_of_files(files, n)
        }),
    decreases files.len(),
{
    let start = tardis::start_state::<F>(SnapshotMode::Process);
    if files.len() == 0 {
        assert(tardis::at_end(start, n) =~= Seq::empty());
    } else {
        law_each_snapshot_row_once(files.drop_last(), n);
        let before = tardis::after_files(start, files.drop_last(), n)->Ok_0;
        let file_type = tardis::header_type(files.last().header)->0;
        lemma_lines_hold(before, file_type, files.last().lines, n);
    }
}

} // verus!
