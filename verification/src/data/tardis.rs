//! Tardis.dev data converter.
//!
//! Converts the lines of Tardis.dev CSV data files into events.

use vstd::prelude::*;

use crate::data::normalize;
use crate::data::validation;
use crate::numbers;
use crate::numbers::Numbers;
use crate::text;
use crate::types::{
    Event, BUY_EVENT, DEPTH_CLEAR_EVENT, DEPTH_EVENT, DEPTH_SNAPSHOT_EVENT, SELL_EVENT, TRADE_EVENT,
};

verus! {

/// Snapshot processing mode.
#[derive(Debug, Clone, Copy, PartialEq, Eq, Structural)]
pub enum SnapshotMode {
    /// Process all snapshots.
    Process,
    /// Ignore start-of-day snapshots only.
    IgnoreSod,
    /// Ignore all snapshots.
    Ignore,
}

/// Configuration for Tardis conversion.
#[derive(Debug, Clone, Copy)]
pub struct TardisConvertConfig {
    /// Buffer size for events.
    pub buffer_size: usize,
    /// Buffer size for snapshot events.
    pub ss_buffer_size: usize,
    /// Base latency to add, in nanoseconds.
    pub base_latency: i64,
    /// Snapshot processing mode.
    pub snapshot_mode: SnapshotMode,
}

impl Default for TardisConvertConfig {
    fn default() -> (r: Self)
        ensures
            r == (TardisConvertConfig {
                buffer_size: 100_000_000,
                ss_buffer_size: 1_000_000,
                base_latency: 0,
                snapshot_mode: SnapshotMode::Process,
            }),
    {
        TardisConvertConfig {
            buffer_size: 100_000_000,
            ss_buffer_size: 1_000_000,
            base_latency: 0,
            snapshot_mode: SnapshotMode::Process,
        }
    }
}

/// How many events memory is set aside for at once where `size` are expected;
/// more memory is taken as it is needed.
pub(crate) fn initial_capacity(size: usize) -> (r: usize)
    ensures
        r == (if size < 65536 {
            size
        } else {
            65536
        }),
{
    if size < 65536 {
        size
    } else {
        65536
    }
}

/// Detected file type based on header.
#[derive(Debug, Clone, Copy, PartialEq, Eq, Structural)]
pub enum FileType {
    Trades,
    Depth,
    BookTicker,
}

/// The file type that a header line names, by its fifth and sixth columns.
pub open spec fn file_type_of(header: Seq<char>) -> Option<FileType> {
    let fields = text::split(header, ',');
    if fields.len() < 8 {
        None
    } else if fields[4] == "id"@ && fields[5] == "side"@ {
        Some(FileType::Trades)
    } else if fields[4] == "is_snapshot"@ && fields[5] == "side"@ {
        Some(FileType::Depth)
    } else if fields[4] == "ask_amount"@ {
        Some(FileType::BookTicker)
    } else {
        None
    }
}

/// Detects file type from header line.
pub fn detect_file_type(header: &str) -> (r: Option<FileType>)
    ensures
        r == file_type_of(header@),
{
    let fields = text::split_on(header, ',');
    let ghost parts = text::split(header@, ',');
    assert(parts == text::texts(fields@));
    if fields.len() < 8 {
        return None;
    }
    assert(fields@[4]@ == parts[4]);
    assert(fields@[5]@ == parts[5]);
    // exchange,symbol,timestamp,local_timestamp,id,side,price,amount
    if text::same_text(fields[4], "id") && text::same_text(fields[5], "side") {
        return Some(FileType::Trades);
    }
    // exchange,symbol,timestamp,local_timestamp,is_snapshot,side,price,amount
    if text::same_text(fields[4], "is_snapshot") && text::same_text(fields[5], "side") {
        return Some(FileType::Depth);
    }
    // exchange,symbol,timestamp,local_timestamp,ask_amount,ask_price,bid_price,bid_amount
    if text::same_text(fields[4], "ask_amount") {
        return Some(FileType::BookTicker);
    }
    None
}

/// Trade record of a Tardis file. Timestamps are in microseconds.
#[derive(Debug)]
pub struct TradeRecord<F> {
    pub timestamp: i64,
    pub local_timestamp: i64,
    pub side: String,
    pub price: F,
    pub amount: F,
}

/// What a trade record says.
pub struct TradeModel<F> {
    pub timestamp: i64,
    pub local_timestamp: i64,
    pub side: Seq<char>,
    pub price: F,
    pub amount: F,
}

impl<F> View for TradeRecord<F> {
    type V = TradeModel<F>;

    open spec fn view(&self) -> TradeModel<F> {
        TradeModel {
            timestamp: self.timestamp,
            local_timestamp: self.local_timestamp,
            side: self.side@,
            price: self.price,
            amount: self.amount,
        }
    }
}

/// Depth record of a Tardis file. Timestamps are in microseconds.
#[derive(Debug)]
pub struct DepthRecord<F> {
    pub timestamp: i64,
    pub local_timestamp: i64,
    pub is_snapshot: bool,
    pub side: String,
    pub price: F,
    pub amount: F,
}

/// What a depth record says.
pub struct DepthRecordModel<F> {
    pub timestamp: i64,
    pub local_timestamp: i64,
    pub is_snapshot: bool,
    pub side: Seq<char>,
    pub price: F,
    pub amount: F,
}

impl<F> View for DepthRecord<F> {
    type V = DepthRecordModel<F>;

    open spec fn view(&self) -> DepthRecordModel<F> {
        DepthRecordModel {
            timestamp: self.timestamp,
            local_timestamp: self.local_timestamp,
            is_snapshot: self.is_snapshot,
            side: self.side@,
            price: self.price,
            amount: self.amount,
        }
    }
}

/// The trade that a line stands for: eight columns at least, of which the
/// third and fourth are integers and the seventh and eighth are numbers.
pub open spec fn trade_in<F, P: Fn(&str) -> Option<F>>(
    parse: P,
    line: Seq<char>,
) -> Option<TradeModel<F>> {
    let fields = text::split(line, ',');
    if fields.len() < 8 {
        None
    } else {
        match (
            text::integer(fields[2]),
            text::integer(fields[3]),
            numbers::number_in(parse, fields[6]),
            numbers::number_in(parse, fields[7]),
        ) {
            (Some(timestamp), Some(local_timestamp), Some(price), Some(amount)) => Some(
                TradeModel { timestamp, local_timestamp, side: fields[5], price, amount },
            ),
            _ => None,
        }
    }
}

/// Parses a trade record from a CSV line.
pub fn parse_trade_record<F: Copy, P: Fn(&str) -> Option<F>>(line: &str, parse: &P) -> (r: Option<
    TradeRecord<F>,
>)
    requires
        numbers::reads_text(*parse),
    ensures
        match r {
            Some(record) => trade_in(*parse, line@) == Some(record@),
            None => trade_in(*parse, line@) is None,
        },
{
    let fields = text::split_on(line, ',');
    let ghost parts = text::split(line@, ',');
    assert(parts == text::texts(fields@));
    if fields.len() < 8 {
        return None;
    }
    assert forall|i: int| 0 <= i < fields@.len() implies #[trigger] fields@[i]@ == parts[i] by {}
    let timestamp: i64 = match text::parse_i64(fields[2]) {
        Some(v) => v,
        None => return None,
    };
    let local_timestamp: i64 = match text::parse_i64(fields[3]) {
        Some(v) => v,
        None => return None,
    };
    let price = match numbers::read_number(parse, fields[6]) {
        Some(v) => v,
        None => return None,
    };
    let amount = match numbers::read_number(parse, fields[7]) {
        Some(v) => v,
        None => return None,
    };
    Some(TradeRecord { timestamp, local_timestamp, side: fields[5].to_string(), price, amount })
}

/// The depth record that a line stands for: eight columns at least, of which
/// the third and fourth are integers and the seventh and eighth are numbers.
pub open spec fn depth_in<F, P: Fn(&str) -> Option<F>>(
    parse: P,
    line: Seq<char>,
) -> Option<DepthRecordModel<F>> {
    let fields = text::split(line, ',');
    if fields.len() < 8 {
        None
    } else {
        match (
            text::integer(fields[2]),
            text::integer(fields[3]),
            numbers::number_in(parse, fields[6]),
            numbers::number_in(parse, fields[7]),
        ) {
            (Some(timestamp), Some(local_timestamp), Some(price), Some(amount)) => Some(
                DepthRecordModel {
                    timestamp,
                    local_timestamp,
                    is_snapshot: fields[4] == "true"@,
                    side: fields[5],
                    price,
                    amount,
                },
            ),
            _ => None,
        }
    }
}

/// Parses a depth record from a CSV line.
pub fn parse_depth_record<F: Copy, P: Fn(&str) -> Option<F>>(line: &str, parse: &P) -> (r: Option<
    DepthRecord<F>,
>)
    requires
        numbers::reads_text(*parse),
    ensures
        match r {
            Some(record) => depth_in(*parse, line@) == Some(record@),
            None => depth_in(*parse, line@) is None,
        },
{
    let fields = text::split_on(line, ',');
    let ghost parts = text::split(line@, ',');
    assert(parts == text::texts(fields@));
    if fields.len() < 8 {
        return None;
    }
    assert forall|i: int| 0 <= i < fields@.len() implies #[trigger] fields@[i]@ == parts[i] by {}
    let timestamp: i64 = match text::parse_i64(fields[2]) {
        Some(v) => v,
        None => return None,
    };
    let local_timestamp: i64 = match text::parse_i64(fields[3]) {
        Some(v) => v,
        None => return None,
    };
    let price = match numbers::read_number(parse, fields[6]) {
        Some(v) => v,
        None => return None,
    };
    let amount = match numbers::read_number(parse, fields[7]) {
        Some(v) => v,
        None => return None,
    };
    Some(
        DepthRecord {
            timestamp,
            local_timestamp,
            is_snapshot: text::same_text(fields[4], "true"),
            side: fields[5].to_string(),
            price,
            amount,
        },
    )
}

/// The microsecond timestamp is a 64-bit number of nanoseconds.
pub open spec fn nanos_fit(micros: i64) -> bool {
    i64::MIN <= micros * 1000 <= i64::MAX
}

/// Tells whether a microsecond timestamp is a 64-bit number of nanoseconds.
pub fn fits_nanos(micros: i64) -> (r: bool)
    ensures
        r == nanos_fit(micros),
{
    -9223372036854775 <= micros && micros <= 9223372036854775
}

/// An event with the given kind, times in microseconds, price and quantity.
pub open spec fn row_event<F>(
    ev: u64,
    timestamp: i64,
    local_timestamp: i64,
    px: F,
    qty: F,
    zero: F,
) -> Event<F> {
    Event {
        ev,
        exch_ts: (timestamp * 1000) as i64,
        local_ts: (local_timestamp * 1000) as i64,
        px,
        qty,
        order_id: 0,
        ival: 0,
        fval: zero,
    }
}

/// The side flag of a trade.
pub open spec fn trade_side(side: Seq<char>) -> u64 {
    if side == "buy"@ {
        BUY_EVENT
    } else if side == "sell"@ {
        SELL_EVENT
    } else {
        0
    }
}

/// The event that a trade record stands for.
pub open spec fn trade_event<F>(m: TradeModel<F>, zero: F) -> Event<F> {
    row_event(
        TRADE_EVENT | trade_side(m.side),
        m.timestamp,
        m.local_timestamp,
        m.price,
        m.amount,
        zero,
    )
}

/// Converts trade record to event.
pub fn trade_to_event<F: Copy>(record: &TradeRecord<F>, zero: F) -> (r: Event<F>)
    requires
        nanos_fit(record.timestamp),
        nanos_fit(record.local_timestamp),
    ensures
        r == trade_event(record@, zero),
{
    let side_flag: u64 = if text::same_text(record.side.as_str(), "buy") {
        BUY_EVENT
    } else if text::same_text(record.side.as_str(), "sell") {
        SELL_EVENT
    } else {
        0
    };
    proof {
        reveal_strlit("buy");
        reveal_strlit("sell");
    }
    Event {
        ev: TRADE_EVENT | side_flag,
        exch_ts: record.timestamp * 1000,
        local_ts: record.local_timestamp * 1000,
        px: record.price,
        qty: record.amount,
        order_id: 0,
        ival: 0,
        fval: zero,
    }
}

/// Internal state for depth conversion.
pub struct DepthConverter<F> {
    ss_bid: Vec<Event<F>>,
    ss_ask: Vec<Event<F>>,
    is_sod_snapshot: bool,
    is_snapshot: bool,
    snapshot_mode: SnapshotMode,
}

/// What a depth converter holds: the snapshot rows collected per side,
/// whether no regular update has come yet, whether a snapshot is being
/// collected, and the mode.
#[verifier::ext_equal]
pub struct DepthState<F> {
    pub bids: Seq<Event<F>>,
    pub asks: Seq<Event<F>>,
    pub start_of_day: bool,
    pub collecting: bool,
    pub mode: SnapshotMode,
}

impl<F> View for DepthConverter<F> {
    type V = DepthState<F>;

    closed spec fn view(&self) -> DepthState<F> {
        DepthState {
            bids: self.ss_bid@,
            asks: self.ss_ask@,
            start_of_day: self.is_sod_snapshot,
            collecting: self.is_snapshot,
            mode: self.snapshot_mode,
        }
    }
}

/// The side flag of a depth row.
pub open spec fn depth_side(side: Seq<char>) -> u64 {
    if side == "bid"@ || side == "buy"@ {
        BUY_EVENT
    } else if side == "ask"@ || side == "sell"@ {
        SELL_EVENT
    } else {
        0
    }
}

/// Snapshot rows are left out.
pub open spec fn skips_snapshot<F>(st: DepthState<F>) -> bool {
    st.mode == SnapshotMode::Ignore || (st.mode == SnapshotMode::IgnoreSod && st.start_of_day)
}

/// The prices of events.
pub open spec fn prices<F>(events: Seq<Event<F>>) -> Seq<F> {
    events.map_values(|e: Event<F>| e.px)
}

/// One side of a snapshot: a clear event at the first row's times that
/// reaches to `px`, then the rows. Nothing where there are no rows.
pub open spec fn side_block<F>(rows: Seq<Event<F>>, side: u64, px: F, zero: F) -> Seq<Event<F>> {
    if rows.len() == 0 {
        Seq::empty()
    } else {
        seq![
            Event {
                ev: DEPTH_CLEAR_EVENT | side,
                exch_ts: rows[0].exch_ts,
                local_ts: rows[0].local_ts,
                px,
                qty: zero,
                order_id: 0,
                ival: 0,
                fval: zero,
            },
        ] + rows
    }
}

/// The events by which a collected snapshot is handed on: bids down to the
/// lowest bid, then asks up to the highest ask.
pub open spec fn snapshot_block<
    F,
    P: Fn(&str) -> Option<F>,
    Lo: Fn(F, F) -> F,
    Hi: Fn(F, F) -> F,
>(bids: Seq<Event<F>>, asks: Seq<Event<F>>, n: Numbers<F, P, Lo, Hi>) -> Seq<Event<F>> {
    side_block(bids, BUY_EVENT, numbers::folded(n.lower, n.highest, prices(bids)), n.zero)
        + side_block(asks, SELL_EVENT, numbers::folded(n.higher, n.lowest, prices(asks)), n.zero)
}

/// The events of a snapshot that is still being collected.
pub open spec fn pending_block<
    F,
    P: Fn(&str) -> Option<F>,
    Lo: Fn(F, F) -> F,
    Hi: Fn(F, F) -> F,
>(st: DepthState<F>, n: Numbers<F, P, Lo, Hi>) -> Seq<Event<F>> {
    if st.collecting {
        snapshot_block(st.bids, st.asks, n)
    } else {
        Seq::empty()
    }
}

/// A depth row: whether it belongs to a snapshot and to the bids, its side
/// flag, its times in microseconds, price and quantity.
pub struct DepthRow<F> {
    pub is_snapshot: bool,
    pub is_bid: bool,
    pub side: u64,
    pub timestamp: i64,
    pub local_timestamp: i64,
    pub px: F,
    pub qty: F,
}

/// The row of a depth record.
pub open spec fn depth_row<F>(m: DepthRecordModel<F>) -> DepthRow<F> {
    DepthRow {
        is_snapshot: m.is_snapshot,
        is_bid: depth_side(m.side) == BUY_EVENT,
        side: depth_side(m.side),
        timestamp: m.timestamp,
        local_timestamp: m.local_timestamp,
        px: m.price,
        qty: m.amount,
    }
}

/// Converter state and events put out after a depth row. Snapshot rows are
/// collected; the first regular row after them hands the snapshot on first.
pub open spec fn after_row<F, P: Fn(&str) -> Option<F>, Lo: Fn(F, F) -> F, Hi: Fn(F, F) -> F>(
    st: DepthState<F>,
    row: DepthRow<F>,
    n: Numbers<F, P, Lo, Hi>,
) -> (DepthState<F>, Seq<Event<F>>) {
    if row.is_snapshot {
        if skips_snapshot(st) {
            (st, Seq::empty())
        } else {
            let bids = if st.collecting {
                st.bids
            } else {
                Seq::empty()
            };
            let asks = if st.collecting {
                st.asks
            } else {
                Seq::empty()
            };
            let event = row_event(
                DEPTH_SNAPSHOT_EVENT | row.side,
                row.timestamp,
                row.local_timestamp,
                row.px,
                row.qty,
                n.zero,
            );
            (
                DepthState {
                    bids: if row.is_bid {
                        bids.push(event)
                    } else {
                        bids
                    },
                    asks: if row.is_bid {
                        asks
                    } else {
                        asks.push(event)
                    },
                    collecting: true,
                    ..st
                },
                Seq::empty(),
            )
        }
    } else {
        let event = row_event(
            DEPTH_EVENT | row.side,
            row.timestamp,
            row.local_timestamp,
            row.px,
            row.qty,
            n.zero,
        );
        if st.collecting {
            (
                DepthState {
                    bids: Seq::empty(),
                    asks: Seq::empty(),
                    start_of_day: false,
                    collecting: false,
                    ..st
                },
                snapshot_block(st.bids, st.asks, n).push(event),
            )
        } else {
            (DepthState { start_of_day: false, ..st }, seq![event])
        }
    }
}

/// The lower or higher of the prices of events.
fn fold_prices<F: Copy, G: Fn(F, F) -> F>(events: &Vec<Event<F>>, start: F, pick: &G) -> (r: F)
    requires
        numbers::combines(*pick),
    ensures
        r == numbers::folded(*pick, start, prices(events@)),
{
    let mut r = start;
    let mut i: usize = 0;
    while i < events.len()
        invariant
            numbers::combines(*pick),
            i <= events@.len(),
            r == numbers::folded(*pick, start, prices(events@).take(i as int)),
        decreases events@.len() - i,
    {
        assert(prices(events@).take(i as int + 1).drop_last() =~= prices(events@).take(i as int));
        r = numbers::combine(pick, r, events[i].px);
        i += 1;
    }
    assert(prices(events@).take(i as int) =~= prices(events@));
    r
}

/// Appends copies of events.
fn append_events<F: Copy>(output: &mut Vec<Event<F>>, events: &Vec<Event<F>>)
    ensures
        final(output)@ == old(output)@ + events@,
{
    let ghost before = output@;
    let mut i: usize = 0;
    assert(output@ =~= before + events@.take(0));
    while i < events.len()
        invariant
            i <= events@.len(),
            output@ == before + events@.take(i as int),
        decreases events@.len() - i,
    {
        output.push(events[i]);
        i += 1;
        assert(output@ =~= before + events@.take(i as int));
    }
    assert(events@.take(i as int) =~= events@);
}

impl<F: Copy> DepthConverter<F> {
    pub fn new(ss_buffer_size: usize, snapshot_mode: SnapshotMode) -> (r: Self)
        ensures
            r@ == (DepthState {
                bids: Seq::<Event<F>>::empty(),
                asks: Seq::empty(),
                start_of_day: true,
                collecting: false,
                mode: snapshot_mode,
            }),
    {
        DepthConverter {
            ss_bid: Vec::with_capacity(initial_capacity(ss_buffer_size)),
            ss_ask: Vec::with_capacity(initial_capacity(ss_buffer_size)),
            is_sod_snapshot: true,
            is_snapshot: false,
            snapshot_mode,
        }
    }

    /// Tells whether snapshot rows are left out.
    pub fn skips_snapshot(&self) -> (r: bool)
        ensures
            r == skips_snapshot(self@),
    {
        self.snapshot_mode == SnapshotMode::Ignore || (self.snapshot_mode
            == SnapshotMode::IgnoreSod && self.is_sod_snapshot)
    }

    /// Processes a depth record and appends events to output.
    pub fn process<P: Fn(&str) -> Option<F>, Lo: Fn(F, F) -> F, Hi: Fn(F, F) -> F>(
        &mut self,
        record: &DepthRecord<F>,
        output: &mut Vec<Event<F>>,
        numbers: &Numbers<F, P, Lo, Hi>,
    )
        requires
            numbers.wf(),
            !(record.is_snapshot && skips_snapshot(old(self)@)) ==> nanos_fit(record.timestamp)
                && nanos_fit(record.local_timestamp),
        ensures
            ({
                let (state, events) = after_row(old(self)@, depth_row(record@), *numbers);
                &&& final(self)@ == state
                &&& final(output)@ == old(output)@ + events
            }),
    {
        if record.is_snapshot && self.skips_snapshot() {
            assert(output@ =~= output@ + Seq::empty());
            return;
        }
        let side_flag: u64 = if text::same_text(record.side.as_str(), "bid") || text::same_text(
            record.side.as_str(),
            "buy",
        ) {
            BUY_EVENT
        } else if text::same_text(record.side.as_str(), "ask") || text::same_text(
            record.side.as_str(),
            "sell",
        ) {
            SELL_EVENT
        } else {
            0
        };
        let row = DepthRow {
            is_snapshot: record.is_snapshot,
            is_bid: side_flag == BUY_EVENT,
            side: side_flag,
            timestamp: record.timestamp,
            local_timestamp: record.local_timestamp,
            px: record.price,
            qty: record.amount,
        };
        self.process_row(&row, output, numbers);
    }

    /// Processes a depth row and appends events to output.
    pub(crate) fn process_row<P: Fn(&str) -> Option<F>, Lo: Fn(F, F) -> F, Hi: Fn(F, F) -> F>(
        &mut self,
        row: &DepthRow<F>,
        output: &mut Vec<Event<F>>,
        numbers: &Numbers<F, P, Lo, Hi>,
    )
        requires
            numbers.wf(),
            nanos_fit(row.timestamp),
            nanos_fit(row.local_timestamp),
        ensures
            ({
                let (state, events) = after_row(old(self)@, *row, *numbers);
                &&& final(self)@ == state
                &&& final(output)@ == old(output)@ + events
            }),
    {
        let exch_ts: i64 = row.timestamp * 1000;
        let local_ts: i64 = row.local_timestamp * 1000;
        let ghost before = output@;
        if row.is_snapshot {
            if self.skips_snapshot() {
                assert(output@ =~= before + Seq::empty());
                return;
            }
            if !self.is_snapshot {
                self.is_snapshot = true;
                self.ss_bid.clear();
                self.ss_ask.clear();
            }
            let event = Event {
                ev: DEPTH_SNAPSHOT_EVENT | row.side,
                exch_ts,
                local_ts,
                px: row.px,
                qty: row.qty,
                order_id: 0,
                ival: 0,
                fval: numbers.zero,
            };
            if row.is_bid {
                self.ss_bid.push(event);
            } else {
                self.ss_ask.push(event);
            }
            assert(output@ =~= before + Seq::empty());
        } else {
            self.is_sod_snapshot = false;
            let ghost st = self@;
            if self.is_snapshot {
                self.is_snapshot = false;
                self.flush_snapshot(output, numbers);
            }
            let event = Event {
                ev: DEPTH_EVENT | row.side,
                exch_ts,
                local_ts,
                px: row.px,
                qty: row.qty,
                order_id: 0,
                ival: 0,
                fval: numbers.zero,
            };
            output.push(event);
            assert(st.collecting ==> output@ =~= before + snapshot_block(
                st.bids,
                st.asks,
                *numbers,
            ).push(event));
            assert(!st.collecting ==> output@ =~= before + seq![event]);
        }
    }

    /// Flushes accumulated snapshot events, each side behind a clear event.
    fn flush_snapshot<P: Fn(&str) -> Option<F>, Lo: Fn(F, F) -> F, Hi: Fn(F, F) -> F>(
        &mut self,
        output: &mut Vec<Event<F>>,
        numbers: &Numbers<F, P, Lo, Hi>,
    )
        requires
            numbers.wf(),
        ensures
            final(self)@ == (DepthState { bids: Seq::empty(), asks: Seq::empty(), ..old(self)@ }),
            final(output)@ == old(output)@ + snapshot_block(
                old(self)@.bids,
                old(self)@.asks,
                *numbers,
            ),
    {
        self.append_snapshot(output, numbers);
        self.ss_bid.clear();
        self.ss_ask.clear();
    }

    /// Appends the accumulated snapshot events to output, each side behind a
    /// clear event.
    fn append_snapshot<P: Fn(&str) -> Option<F>, Lo: Fn(F, F) -> F, Hi: Fn(F, F) -> F>(
        &self,
        output: &mut Vec<Event<F>>,
        numbers: &Numbers<F, P, Lo, Hi>,
    )
        requires
            numbers.wf(),
        ensures
            final(output)@ == old(output)@ + snapshot_block(self@.bids, self@.asks, *numbers),
    {
        let ghost before = output@;
        let ghost bids = self.ss_bid@;
        let ghost asks = self.ss_ask@;
        if self.ss_bid.len() > 0 {
            let min_px = fold_prices(&self.ss_bid, numbers.highest, &numbers.lower);
            output.push(
                Event {
                    ev: DEPTH_CLEAR_EVENT | BUY_EVENT,
                    exch_ts: self.ss_bid[0].exch_ts,
                    local_ts: self.ss_bid[0].local_ts,
                    px: min_px,
                    qty: numbers.zero,
                    order_id: 0,
                    ival: 0,
                    fval: numbers.zero,
                },
            );
            append_events(output, &self.ss_bid);
        }
        let ghost bid_block = side_block(
            bids,
            BUY_EVENT,
            numbers::folded(numbers.lower, numbers.highest, prices(bids)),
            numbers.zero,
        );
        assert(output@ =~= before + bid_block);
        if self.ss_ask.len() > 0 {
            let max_px = fold_prices(&self.ss_ask, numbers.lowest, &numbers.higher);
            output.push(
                Event {
                    ev: DEPTH_CLEAR_EVENT | SELL_EVENT,
                    exch_ts: self.ss_ask[0].exch_ts,
                    local_ts: self.ss_ask[0].local_ts,
                    px: max_px,
                    qty: numbers.zero,
                    order_id: 0,
                    ival: 0,
                    fval: numbers.zero,
                },
            );
            append_events(output, &self.ss_ask);
        }
        assert(output@ =~= before + snapshot_block(bids, asks, *numbers));
    }

    /// Appends a snapshot that is still being collected when the input ends.
    pub fn append_pending<P: Fn(&str) -> Option<F>, Lo: Fn(F, F) -> F, Hi: Fn(F, F) -> F>(
        &self,
        output: &mut Vec<Event<F>>,
        numbers: &Numbers<F, P, Lo, Hi>,
    )
        requires
            numbers.wf(),
        ensures
            final(output)@ == old(output)@ + pending_block(self@, *numbers),
    {
        if self.is_snapshot {
            self.append_snapshot(output, numbers);
        } else {
            assert(output@ =~= output@ + Seq::empty());
        }
    }
}

/// What the converter has so far: the events put out and the depth state.
#[verifier::ext_equal]
pub struct ConvertState<F> {
    pub events: Seq<Event<F>>,
    pub depth: DepthState<F>,
}

impl<F> ConvertState<F> {
    /// No event carries the exchange or the local flag yet.
    pub open spec fn is_plain(self) -> bool {
        &&& normalize::all_plain(self.events)
        &&& normalize::all_plain(self.depth.bids)
        &&& normalize::all_plain(self.depth.asks)
    }
}

/// The converter before the first file.
pub open spec fn start_state<F>(mode: SnapshotMode) -> ConvertState<F> {
    ConvertState {
        events: Seq::empty(),
        depth: DepthState {
            bids: Seq::empty(),
            asks: Seq::empty(),
            start_of_day: true,
            collecting: false,
            mode,
        },
    }
}

/// The state after a depth row.
pub open spec fn with_row<F, P: Fn(&str) -> Option<F>, Lo: Fn(F, F) -> F, Hi: Fn(F, F) -> F>(
    st: ConvertState<F>,
    row: DepthRow<F>,
    n: Numbers<F, P, Lo, Hi>,
) -> ConvertState<F> {
    let (depth, events) = after_row(st.depth, row, n);
    ConvertState { events: st.events + events, depth }
}

/// All events at the end of the input: those put out, and behind them a
/// snapshot that is still being collected.
pub open spec fn at_end<F, P: Fn(&str) -> Option<F>, Lo: Fn(F, F) -> F, Hi: Fn(F, F) -> F>(
    st: ConvertState<F>,
    n: Numbers<F, P, Lo, Hi>,
) -> Seq<Event<F>> {
    st.events + pending_block(st.depth, n)
}

/// The state after a line of a file, or the message of the error. Empty
/// lines and lines that stand for no record are passed over.
pub open spec fn after_line<F, P: Fn(&str) -> Option<F>, Lo: Fn(F, F) -> F, Hi: Fn(F, F) -> F>(
    st: ConvertState<F>,
    file_type: FileType,
    line: Seq<char>,
    n: Numbers<F, P, Lo, Hi>,
) -> Result<ConvertState<F>, Seq<char>> {
    if line.len() == 0 {
        Ok(st)
    } else {
        match file_type {
            FileType::Trades => match trade_in(n.parse, line) {
                Some(m) => Ok(
                    ConvertState { events: st.events.push(trade_event(m, n.zero)), ..st },
                ),
                None => Ok(st),
            },
            FileType::Depth => match depth_in(n.parse, line) {
                Some(m) => Ok(with_row(st, depth_row(m), n)),
                None => Ok(st),
            },
            FileType::BookTicker => Err("Use convert_fuse for book_ticker data"@),
        }
    }
}

/// The times of a line's record are 64-bit numbers of nanoseconds.
pub open spec fn line_fits<F, P: Fn(&str) -> Option<F>, Lo: Fn(F, F) -> F, Hi: Fn(F, F) -> F>(
    st: ConvertState<F>,
    file_type: FileType,
    line: Seq<char>,
    n: Numbers<F, P, Lo, Hi>,
) -> bool {
    line.len() > 0 ==> match file_type {
        FileType::Trades => match trade_in(n.parse, line) {
            Some(m) => nanos_fit(m.timestamp) && nanos_fit(m.local_timestamp),
            None => true,
        },
        FileType::Depth => match depth_in(n.parse, line) {
            Some(m) => (m.is_snapshot && skips_snapshot(st.depth)) || (nanos_fit(m.timestamp)
                && nanos_fit(m.local_timestamp)),
            None => true,
        },
        FileType::BookTicker => true,
    }
}

/// The state after the lines of a file.
pub open spec fn after_lines<F, P: Fn(&str) -> Option<F>, Lo: Fn(F, F) -> F, Hi: Fn(F, F) -> F>(
    st: ConvertState<F>,
    file_type: FileType,
    lines: Seq<Seq<char>>,
    n: Numbers<F, P, Lo, Hi>,
) -> Result<ConvertState<F>, Seq<char>>
    decreases lines.len(),
{
    if lines.len() == 0 {
        Ok(st)
    } else {
        match after_lines(st, file_type, lines.drop_last(), n) {
            Ok(s) => after_line(s, file_type, lines.last(), n),
            Err(e) => Err(e),
        }
    }
}

/// The times of all records that are reached are 64-bit numbers of nanoseconds.
pub open spec fn lines_fit<F, P: Fn(&str) -> Option<F>, Lo: Fn(F, F) -> F, Hi: Fn(F, F) -> F>(
    st: ConvertState<F>,
    file_type: FileType,
    lines: Seq<Seq<char>>,
    n: Numbers<F, P, Lo, Hi>,
) -> bool {
    forall|i: int|
        0 <= i < lines.len() ==> (match #[trigger] after_lines(st, file_type, lines.take(i), n) {
            Ok(s) => line_fits(s, file_type, lines[i], n),
            Err(_) => true,
        })
}

/// A data file: the name it goes by in messages, its header line and the
/// lines behind it, without line ends.
pub struct TardisFile {
    pub name: String,
    pub header: String,
    pub lines: Vec<String>,
}

/// What a data file holds.
pub struct TardisFileModel {
    pub name: Seq<char>,
    pub header: Seq<char>,
    pub lines: Seq<Seq<char>>,
}

impl View for TardisFile {
    type V = TardisFileModel;

    open spec fn view(&self) -> TardisFileModel {
        TardisFileModel {
            name: self.name@,
            header: self.header@,
            lines: text::strings(self.lines@),
        }
    }
}

/// What a list of data files holds.
pub open spec fn files_view(files: Seq<TardisFile>) -> Seq<TardisFileModel> {
    files.map_values(|f: TardisFile| f@)
}

/// The file type of a header line as read from a file.
pub open spec fn header_type(header: Seq<char>) -> Option<FileType> {
    file_type_of(text::trimmed_end(text::trimmed_start(header)))
}

/// The message for a file whose header is not known.
pub open spec fn unknown_file(name: Seq<char>) -> Seq<char> {
    "Unknown file type for "@ + name
}

/// The state after a file.
pub open spec fn after_file<F, P: Fn(&str) -> Option<F>, Lo: Fn(F, F) -> F, Hi: Fn(F, F) -> F>(
    st: ConvertState<F>,
    file: TardisFileModel,
    n: Numbers<F, P, Lo, Hi>,
) -> Result<ConvertState<F>, Seq<char>> {
    match header_type(file.header) {
        Some(file_type) => after_lines(st, file_type, file.lines, n),
        None => Err(unknown_file(file.name)),
    }
}

/// The state after files.
pub open spec fn after_files<F, P: Fn(&str) -> Option<F>, Lo: Fn(F, F) -> F, Hi: Fn(F, F) -> F>(
    st: ConvertState<F>,
    files: Seq<TardisFileModel>,
    n: Numbers<F, P, Lo, Hi>,
) -> Result<ConvertState<F>, Seq<char>>
    decreases files.len(),
{
    if files.len() == 0 {
        Ok(st)
    } else {
        match after_files(st, files.drop_last(), n) {
            Ok(s) => after_file(s, files.last(), n),
            Err(e) => Err(e),
        }
    }
}

/// The times of all records that are reached are 64-bit numbers of nanoseconds.
pub open spec fn files_fit<F, P: Fn(&str) -> Option<F>, Lo: Fn(F, F) -> F, Hi: Fn(F, F) -> F>(
    st: ConvertState<F>,
    files: Seq<TardisFileModel>,
    n: Numbers<F, P, Lo, Hi>,
) -> bool {
    forall|i: int|
        0 <= i < files.len() ==> (match #[trigger] after_files(st, files.take(i), n) {
            Ok(s) => match header_type(files[i].header) {
                Some(file_type) => lines_fit(s, file_type, files[i].lines, n),
                None => true,
            },
            Err(_) => true,
        })
}

/// No event of a snapshot carries the exchange or the local flag.
proof fn lemma_block_is_plain<F, P: Fn(&str) -> Option<F>, Lo: Fn(F, F) -> F, Hi: Fn(F, F) -> F>(
    st: DepthState<F>,
    n: Numbers<F, P, Lo, Hi>,
)
    requires
        normalize::all_plain(st.bids),
        normalize::all_plain(st.asks),
    ensures
        normalize::all_plain(snapshot_block(st.bids, st.asks, n)),
{
    let block = snapshot_block(st.bids, st.asks, n);
    assert forall|i: int| 0 <= i < block.len() implies normalize::plain(#[trigger] block[i]) by {
        let bid_block = side_block(
            st.bids,
            BUY_EVENT,
            numbers::folded(n.lower, n.highest, prices(st.bids)),
            n.zero,
        );
        if i < bid_block.len() {
            if i == 0 {
                normalize::lemma_kind_is_plain(block[i], DEPTH_CLEAR_EVENT, BUY_EVENT);
            } else {
                assert(block[i] == st.bids[i - 1]);
            }
        } else {
            let k = i - bid_block.len();
            if k == 0 {
                normalize::lemma_kind_is_plain(block[i], DEPTH_CLEAR_EVENT, SELL_EVENT);
            } else {
                assert(block[i] == st.asks[k - 1]);
            }
        }
    }
}

/// At the end of the input, too, no event carries the exchange or the local flag.
pub proof fn lemma_end_is_plain<
    F,
    P: Fn(&str) -> Option<F>,
    Lo: Fn(F, F) -> F,
    Hi: Fn(F, F) -> F,
>(st: ConvertState<F>, n: Numbers<F, P, Lo, Hi>)
    requires
        st.is_plain(),
    ensures
        normalize::all_plain(at_end(st, n)),
{
    lemma_block_is_plain(st.depth, n);
}

/// No row makes an event with the exchange or the local flag.
pub proof fn lemma_row_keeps_plain<
    F,
    P: Fn(&str) -> Option<F>,
    Lo: Fn(F, F) -> F,
    Hi: Fn(F, F) -> F,
>(st: ConvertState<F>, row: DepthRow<F>, n: Numbers<F, P, Lo, Hi>)
    requires
        st.is_plain(),
        row.side == 0 || row.side == BUY_EVENT || row.side == SELL_EVENT,
    ensures
        with_row(st, row, n).is_plain(),
{
    let after = with_row(st, row, n);
    let kind = if row.is_snapshot {
        DEPTH_SNAPSHOT_EVENT
    } else {
        DEPTH_EVENT
    };
    normalize::lemma_kind_is_plain(
        row_event(kind | row.side, row.timestamp, row.local_timestamp, row.px, row.qty, n.zero),
        kind,
        row.side,
    );
    lemma_block_is_plain(st.depth, n);
}

/// No line makes an event with the exchange or the local flag.
pub proof fn lemma_line_keeps_plain<
    F,
    P: Fn(&str) -> Option<F>,
    Lo: Fn(F, F) -> F,
    Hi: Fn(F, F) -> F,
>(st: ConvertState<F>, file_type: FileType, line: Seq<char>, n: Numbers<F, P, Lo, Hi>)
    requires
        st.is_plain(),
    ensures
        match after_line(st, file_type, line, n) {
            Ok(s) => s.is_plain(),
            Err(_) => true,
        },
{
    match file_type {
        FileType::Trades => {
            if let Some(m) = trade_in(n.parse, line) {
                normalize::lemma_kind_is_plain(
                    trade_event(m, n.zero),
                    TRADE_EVENT,
                    trade_side(m.side),
                );
            }
        },
        FileType::Depth => {
            if let Some(m) = depth_in(n.parse, line) {
                lemma_row_keeps_plain(st, depth_row(m), n);
            }
        },
        FileType::BookTicker => {},
    }
}

/// Converts data files line by line.
pub struct TardisConverter<F> {
    events: Vec<Event<F>>,
    depth: DepthConverter<F>,
    base_latency: i64,
}

impl<F> View for TardisConverter<F> {
    type V = ConvertState<F>;

    closed spec fn view(&self) -> ConvertState<F> {
        ConvertState { events: self.events@, depth: self.depth@ }
    }
}

impl<F: Copy> TardisConverter<F> {
    /// No event carries the exchange or the local flag yet.
    pub open spec fn wf(&self) -> bool {
        self@.is_plain()
    }

    /// The latency that is added where local timestamps are corrected.
    pub closed spec fn base_latency(&self) -> i64 {
        self.base_latency
    }

    pub fn new(config: &TardisConvertConfig) -> (r: Self)
        ensures
            r.wf(),
            r@ == start_state::<F>(config.snapshot_mode),
            r.base_latency() == config.base_latency,
    {
        TardisConverter {
            events: Vec::with_capacity(initial_capacity(config.buffer_size)),
            depth: DepthConverter::new(config.ss_buffer_size, config.snapshot_mode),
            base_latency: config.base_latency,
        }
    }

    /// Finds the type of a file from its header line.
    pub fn start_file(&self, name: &str, header: &str) -> (r: Result<FileType, String>)
        ensures
            match r {
                Ok(file_type) => header_type(header@) == Some(file_type),
                Err(message) => header_type(header@) is None && message@ == unknown_file(name@),
            },
    {
        match detect_file_type(text::trim(header)) {
            Some(file_type) => Ok(file_type),
            None => {
                let mut message = "Unknown file type for ".to_string();
                message.append(name);
                Err(message)
            },
        }
    }

    /// Tells whether the times of a line's record are 64-bit numbers of nanoseconds.
    pub fn line_fits<P: Fn(&str) -> Option<F>, Lo: Fn(F, F) -> F, Hi: Fn(F, F) -> F>(
        &self,
        file_type: FileType,
        line: &str,
        numbers: &Numbers<F, P, Lo, Hi>,
    ) -> (r: bool)
        requires
            numbers.wf(),
        ensures
            r == line_fits(self@, file_type, line@, *numbers),
    {
        if line.is_empty() {
            return true;
        }
        match file_type {
            FileType::Trades => match parse_trade_record(line, &numbers.parse) {
                Some(m) => fits_nanos(m.timestamp) && fits_nanos(m.local_timestamp),
                None => true,
            },
            FileType::Depth => match parse_depth_record(line, &numbers.parse) {
                Some(m) => (m.is_snapshot && self.depth.skips_snapshot()) || (fits_nanos(
                    m.timestamp,
                ) && fits_nanos(m.local_timestamp)),
                None => true,
            },
            FileType::BookTicker => true,
        }
    }

    /// Takes the next line of a file.
    pub fn push_line<P: Fn(&str) -> Option<F>, Lo: Fn(F, F) -> F, Hi: Fn(F, F) -> F>(
        &mut self,
        file_type: FileType,
        line: &str,
        numbers: &Numbers<F, P, Lo, Hi>,
    ) -> (r: Result<(), String>)
        requires
            old(self).wf(),
            numbers.wf(),
            line_fits(old(self)@, file_type, line@, *numbers),
        ensures
            final(self).wf(),
            final(self).base_latency() == old(self).base_latency(),
            match r {
                Ok(_) => after_line(old(self)@, file_type, line@, *numbers) == Ok::<
                    ConvertState<F>,
                    Seq<char>,
                >(final(self)@),
                Err(message) => {
                    &&& after_line(old(self)@, file_type, line@, *numbers) == Err::<
                        ConvertState<F>,
                        Seq<char>,
                    >(message@)
                    &&& final(self)@ == old(self)@
                },
            },
    {
        proof {
            lemma_line_keeps_plain(self@, file_type, line@, *numbers);
        }
        if line.is_empty() {
            return Ok(());
        }
        match file_type {
            FileType::Trades => {
                if let Some(record) = parse_trade_record(line, &numbers.parse) {
                    self.events.push(trade_to_event(&record, numbers.zero));
                }
            },
            FileType::Depth => {
                if let Some(record) = parse_depth_record(line, &numbers.parse) {
                    self.depth.process(&record, &mut self.events, numbers);
                }
            },
            FileType::BookTicker => {
                return Err("Use convert_fuse for book_ticker data".to_string());
            },
        }
        Ok(())
    }

    /// Tells whether the latency of the events can be corrected within 64 bits.
    pub fn timestamps_fit<P: Fn(&str) -> Option<F>, Lo: Fn(F, F) -> F, Hi: Fn(F, F) -> F>(
        &self,
        numbers: &Numbers<F, P, Lo, Hi>,
    ) -> (r: bool)
        requires
            numbers.wf(),
        ensures
            r == validation::timestamps_in_range(
                at_end(self@, *numbers),
                self.base_latency() as int,
            ),
    {
        let mut pending: Vec<Event<F>> = Vec::new();
        self.depth.append_pending(&mut pending, numbers);
        assert(pending@ =~= pending_block(self@.depth, *numbers));
        validation::timestamps_fit_with(
            self.events.as_slice(),
            pending.as_slice(),
            self.base_latency,
        )
    }

    /// Ends the input: hands on a snapshot that is still being collected,
    /// corrects latency and order of the events and hands them out.
    pub fn finish<P: Fn(&str) -> Option<F>, Lo: Fn(F, F) -> F, Hi: Fn(F, F) -> F>(
        self,
        numbers: &Numbers<F, P, Lo, Hi>,
    ) -> (r: Result<Vec<Event<F>>, String>)
        requires
            self.wf(),
            numbers.wf(),
            validation::timestamps_in_range(
                at_end(self@, *numbers),
                self.base_latency() as int,
            ),
        ensures
            r is Ok,
            r->Ok_0@ == normalize::normalized(
                at_end(self@, *numbers),
                self.base_latency() as int,
            ),
    {
        proof {
            lemma_end_is_plain(self@, *numbers);
        }
        let mut events = self.events;
        self.depth.append_pending(&mut events, numbers);
        normalize::normalize_events(events, self.base_latency)
    }
}

/// Converts data files. Trade files should come before depth files.
pub fn convert_tardis<F: Copy, P: Fn(&str) -> Option<F>, Lo: Fn(F, F) -> F, Hi: Fn(F, F) -> F>(
    input_files: &[TardisFile],
    config: &TardisConvertConfig,
    numbers: &Numbers<F, P, Lo, Hi>,
) -> (r: Result<Vec<Event<F>>, String>)
    requires
        numbers.wf(),
        files_fit(start_state(config.snapshot_mode), files_view(input_files@), *numbers),
        match after_files(
            start_state(config.snapshot_mode),
            files_view(input_files@),
            *numbers,
        ) {
            Ok(st) => validation::timestamps_in_range(
                at_end(st, *numbers),
                config.base_latency as int,
            ),
            Err(_) => true,
        },
    ensures
        match after_files(
            start_state(config.snapshot_mode),
            files_view(input_files@),
            *numbers,
        ) {
            Ok(st) => r is Ok && r->Ok_0@ == normalize::normalized(
                at_end(st, *numbers),
                config.base_latency as int,
            ),
            Err(message) => r is Err && r->Err_0@ == message,
        },
{
    let mut converter = TardisConverter::new(config);
    let ghost start = start_state::<F>(config.snapshot_mode);
    let ghost files = files_view(input_files@);
    let mut i: usize = 0;
    assert(files.take(0) =~= Seq::empty());
    while i < input_files.len()
        invariant
            numbers.wf(),
            converter.wf(),
            converter.base_latency() == config.base_latency,
            i <= input_files@.len(),
            files == files_view(input_files@),
            start == start_state::<F>(config.snapshot_mode),
            files_fit(start, files, *numbers),
            after_files(start, files.take(i as int), *numbers) == Ok::<
                ConvertState<F>,
                Seq<char>,
            >(converter@),
        decreases input_files@.len() - i,
    {
        let file = &input_files[i];
        let ghost before = converter@;
        assert(files[i as int] == file@);
        assert(files.take(i as int + 1).drop_last() =~= files.take(i as int));
        let file_type = match converter.start_file(file.name.as_str(), file.header.as_str()) {
            Ok(file_type) => file_type,
            Err(message) => {
                proof {
                    lemma_error_stays(start, files, i as int + 1, *numbers);
                }
                return Err(message);
            },
        };
        let ghost lines = text::strings(file.lines@);
        let mut j: usize = 0;
        assert(lines.take(0) =~= Seq::empty());
        while j < file.lines.len()
            invariant
                numbers.wf(),
                converter.wf(),
                converter.base_latency() == config.base_latency,
                i < input_files@.len(),
                file@ == files[i as int],
                files.len() == input_files@.len(),
                files == files_view(input_files@),
                start == start_state::<F>(config.snapshot_mode),
                after_files(start, files.take(i as int), *numbers) == Ok::<
                    ConvertState<F>,
                    Seq<char>,
                >(before),
                files.take(i as int + 1).drop_last() == files.take(i as int),
                header_type(file@.header) == Some(file_type),
                lines == text::strings(file.lines@),
                lines == file@.lines,
                lines_fit(before, file_type, lines, *numbers),
                j <= lines.len(),
                after_lines(before, file_type, lines.take(j as int), *numbers) == Ok::<
                    ConvertState<F>,
                    Seq<char>,
                >(converter@),
            decreases lines.len() - j,
        {
            assert(file.lines@[j as int]@ == lines[j as int]);
            assert(lines.take(j as int + 1).drop_last() =~= lines.take(j as int));
            match converter.push_line(file_type, file.lines[j].as_str(), numbers) {
                Ok(_) => {},
                Err(message) => {
                    proof {
                        lemma_line_error_stays(
                            before,
                            file_type,
                            lines,
                            j as int + 1,
                            *numbers,
                        );
                        lemma_error_stays(start, files, i as int + 1, *numbers);
                    }
                    return Err(message);
                },
            }
            j += 1;
        }
        assert(lines.take(j as int) =~= lines);
        i += 1;
    }
    assert(files.take(i as int) =~= files);
    converter.finish(numbers)
}

proof fn lemma_line_error_stays<
    F,
    P: Fn(&str) -> Option<F>,
    Lo: Fn(F, F) -> F,
    Hi: Fn(F, F) -> F,
>(
    st: ConvertState<F>,
    file_type: FileType,
    lines: Seq<Seq<char>>,
    i: int,
    n: Numbers<F, P, Lo, Hi>,
)
    requires
        0 <= i <= lines.len(),
        after_lines(st, file_type, lines.take(i), n) is Err,
    ensures
        after_lines(st, file_type, lines, n) == after_lines(st, file_type, lines.take(i), n),
    decreases lines.len() - i,
{
    if i < lines.len() {
        assert(lines.take(i + 1).drop_last() =~= lines.take(i));
        lemma_line_error_stays(st, file_type, lines, i + 1, n);
    } else {
        assert(lines.take(i) =~= lines);
    }
}

proof fn lemma_error_stays<F, P: Fn(&str) -> Option<F>, Lo: Fn(F, F) -> F, Hi: Fn(F, F) -> F>(
    st: ConvertState<F>,
    files: Seq<TardisFileModel>,
    i: int,
    n: Numbers<F, P, Lo, Hi>,
)
    requires
        0 <= i <= files.len(),
        after_files(st, files.take(i), n) is Err,
    ensures
        after_files(st, files, n) == after_files(st, files.take(i), n),
    decreases files.len() - i,
{
    if i < files.len() {
        assert(files.take(i + 1).drop_last() =~= files.take(i));
        lemma_error_stays(st, files, i + 1, n);
    } else {
        assert(files.take(i) =~= files);
    }
}

/// Converts data files with the default configuration.
pub fn convert<F: Copy, P: Fn(&str) -> Option<F>, Lo: Fn(F, F) -> F, Hi: Fn(F, F) -> F>(
    input_files: &[TardisFile],
    numbers: &Numbers<F, P, Lo, Hi>,
) -> (r: Result<Vec<Event<F>>, String>)
    requires
        numbers.wf(),
        files_fit(start_state(SnapshotMode::Process), files_view(input_files@), *numbers),
        match after_files(
            start_state(SnapshotMode::Process),
            files_view(input_files@),
            *numbers,
        ) {
            Ok(st) => validation::timestamps_in_range(at_end(st, *numbers), 0),
            Err(_) => true,
        },
    ensures
        match after_files(
            start_state(SnapshotMode::Process),
            files_view(input_files@),
            *numbers,
        ) {
            Ok(st) => r is Ok && r->Ok_0@ == normalize::normalized(
                at_end(st, *numbers),
                0,
            ),
            Err(message) => r is Err && r->Err_0@ == message,
        },
{
    convert_tardis(input_files, &TardisConvertConfig::default(), numbers)
}

} // verus!
