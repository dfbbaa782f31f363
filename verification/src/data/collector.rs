//! Collector data converter.
//!
//! Converts the JSON data collected by the collector into Tardis-compatible
//! CSV rows. A line of collector output is a timestamp in nanoseconds, a space
//! and a JSON text, which is one of
//! - a trade event: `{"stream":"btcusdt@trade","data":{...}}`
//! - a depth update: `{"stream":"btcusdt@depth@0ms","data":{...}}`
//! - a book ticker: `{"stream":"btcusdt@bookTicker","data":{...}}`
//! - a snapshot: `{"lastUpdateId":...,"E":...,"T":...,"bids":[...],"asks":[...]}`

use vstd::prelude::*;

use crate::decode;
use crate::text;
use crate::text::LevelText;

verus! {

/// Configuration for collector data conversion.
#[derive(Debug)]
pub struct CollectorConvertConfig {
    /// Whether snapshots go into the output.
    pub include_snapshots: bool,
    /// Exchange name for the rows.
    pub exchange: String,
}

impl Default for CollectorConvertConfig {
    fn default() -> (r: Self)
        ensures
            r.include_snapshots,
            r.exchange@ == "binance-futures"@,
    {
        CollectorConvertConfig {
            include_snapshots: true,
            exchange: "binance-futures".to_string(),
        }
    }
}

impl Clone for CollectorConvertConfig {
    fn clone(&self) -> (r: Self)
        ensures
            r.include_snapshots == self.include_snapshots,
            r.exchange@ == self.exchange@,
    {
        CollectorConvertConfig {
            include_snapshots: self.include_snapshots,
            exchange: self.exchange.clone(),
        }
    }
}

/// Statistics from conversion.
#[derive(Debug, Clone, Copy)]
pub struct ConversionStats {
    pub trades: usize,
    pub depth_updates: usize,
    pub snapshot_entries: usize,
    pub book_ticker_count: usize,
    pub errors: usize,
}

/// Counts of a conversion.
pub struct StatsModel {
    pub trades: int,
    pub depth_updates: int,
    pub snapshot_entries: int,
    pub book_ticker_count: int,
    pub errors: int,
}

impl View for ConversionStats {
    type V = StatsModel;

    open spec fn view(&self) -> StatsModel {
        StatsModel {
            trades: self.trades as int,
            depth_updates: self.depth_updates as int,
            snapshot_entries: self.snapshot_entries as int,
            book_ticker_count: self.book_ticker_count as int,
            errors: self.errors as int,
        }
    }
}

/// Nothing counted yet.
pub open spec fn no_stats() -> StatsModel {
    StatsModel {
        trades: 0,
        depth_updates: 0,
        snapshot_entries: 0,
        book_ticker_count: 0,
        errors: 0,
    }
}

/// The counts fit in machine words.
pub open spec fn stats_fit(s: StatsModel) -> bool {
    &&& s.trades <= usize::MAX
    &&& s.depth_updates <= usize::MAX
    &&& s.snapshot_entries <= usize::MAX
    &&& s.book_ticker_count <= usize::MAX
    &&& s.errors <= usize::MAX
}

impl Default for ConversionStats {
    fn default() -> (r: Self)
        ensures
            r@ == no_stats(),
    {
        ConversionStats {
            trades: 0,
            depth_updates: 0,
            snapshot_entries: 0,
            book_ticker_count: 0,
            errors: 0,
        }
    }
}

/// Stream message: the name of the stream and the data, not decoded yet.
#[derive(Debug)]
pub struct StreamMessage<V> {
    pub stream: String,
    pub data: V,
}

impl<V> View for StreamMessage<V> {
    type V = (Seq<char>, V);

    open spec fn view(&self) -> (Seq<char>, V) {
        (self.stream@, self.data)
    }
}

/// Data of a trade event. The time is in milliseconds.
#[derive(Debug)]
pub struct TradeData {
    pub event_time: i64,
    pub symbol: String,
    pub id: i64,
    pub price: String,
    pub qty: String,
    /// The taker sells where the buyer is the maker.
    pub is_buyer_maker: bool,
}

/// What the data of a trade event says.
pub struct TradeDataModel {
    pub event_time: i64,
    pub symbol: Seq<char>,
    pub id: i64,
    pub price: Seq<char>,
    pub qty: Seq<char>,
    pub is_buyer_maker: bool,
}

impl View for TradeData {
    type V = TradeDataModel;

    open spec fn view(&self) -> TradeDataModel {
        TradeDataModel {
            event_time: self.event_time,
            symbol: self.symbol@,
            id: self.id,
            price: self.price@,
            qty: self.qty@,
            is_buyer_maker: self.is_buyer_maker,
        }
    }
}

/// Data of a depth update. The time is in milliseconds.
#[derive(Debug)]
pub struct DepthData {
    pub event_time: i64,
    pub symbol: String,
    pub bids: Vec<(String, String)>,
    pub asks: Vec<(String, String)>,
}

/// What the data of a depth update says.
pub struct DepthDataModel {
    pub event_time: i64,
    pub symbol: Seq<char>,
    pub bids: Seq<LevelText>,
    pub asks: Seq<LevelText>,
}

impl View for DepthData {
    type V = DepthDataModel;

    open spec fn view(&self) -> DepthDataModel {
        DepthDataModel {
            event_time: self.event_time,
            symbol: self.symbol@,
            bids: text::levels_view(self.bids@),
            asks: text::levels_view(self.asks@),
        }
    }
}

/// Depth snapshot. Times are in milliseconds.
#[derive(Debug)]
pub struct SnapshotData {
    pub last_update_id: i64,
    pub event_time: i64,
    pub transaction_time: i64,
    pub bids: Vec<(String, String)>,
    pub asks: Vec<(String, String)>,
}

/// What a depth snapshot says.
pub struct SnapshotDataModel {
    pub last_update_id: i64,
    pub event_time: i64,
    pub transaction_time: i64,
    pub bids: Seq<LevelText>,
    pub asks: Seq<LevelText>,
}

impl View for SnapshotData {
    type V = SnapshotDataModel;

    open spec fn view(&self) -> SnapshotDataModel {
        SnapshotDataModel {
            last_update_id: self.last_update_id,
            event_time: self.event_time,
            transaction_time: self.transaction_time,
            bids: text::levels_view(self.bids@),
            asks: text::levels_view(self.asks@),
        }
    }
}

/// How the JSON texts of a collector file are decoded.
pub struct Decoders<S, T, D, N> {
    /// Decodes a stream message.
    pub stream: S,
    /// Decodes the data of a trade event.
    pub trade: T,
    /// Decodes the data of a depth update.
    pub depth: D,
    /// Decodes a snapshot.
    pub snapshot: N,
}

/// All decoders are defined everywhere and depend on their input alone.
pub open spec fn decoders_ok<
    V,
    S: Fn(&str) -> Option<StreamMessage<V>>,
    T: Fn(&V) -> Option<TradeData>,
    D: Fn(&V) -> Option<DepthData>,
    N: Fn(&str) -> Option<SnapshotData>,
>(d: Decoders<S, T, D, N>) -> bool {
    &&& decode::decodes_text(d.stream)
    &&& decode::decodes_value::<V, TradeData, T>(d.trade)
    &&& decode::decodes_value::<V, DepthData, D>(d.depth)
    &&& decode::decodes_text(d.snapshot)
}

/// The symbol of a stream name: upper case of what stands before the first `@`.
pub open spec fn symbol_of_stream(stream: Seq<char>) -> Seq<char> {
    text::in_upper_case(stream.take(text::first_at(stream, '@')))
}

/// Extract symbol from stream name (e.g., "btcusdt@trade" -> "BTCUSDT").
pub fn extract_symbol(stream: &str) -> (r: Option<String>)
    ensures
        r is Some,
        r->0@ == symbol_of_stream(stream@),
{
    Some(text::to_upper(text::before_first(stream, '@')))
}

/// The symbol that the snapshots of a file belong to: upper case of what
/// stands before the first `_` of the file name's stem.
pub open spec fn symbol_of_file(stem: Option<Seq<char>>) -> Seq<char> {
    match stem {
        Some(s) => text::in_upper_case(s.take(text::first_at(s, '_'))),
        None => "BTCUSDT"@,
    }
}

/// The symbol that the snapshots of a file belong to.
pub fn snapshot_symbol(stem: Option<&str>) -> (r: String)
    ensures
        r@ == symbol_of_file(
            match stem {
                Some(s) => Some(s@),
                None => None,
            },
        ),
{
    match stem {
        Some(s) => text::to_upper(text::before_first(s, '_')),
        None => "BTCUSDT".to_string(),
    }
}

/// The timestamp and the JSON text of a collector line.
pub open spec fn line_parts(line: Seq<char>) -> Option<(i64, Seq<char>)> {
    let at = text::first_at(line, ' ');
    match text::integer(line.take(at)) {
        Some(nanos) => if at < line.len() {
            Some((nanos, line.skip(at + 1)))
        } else {
            None
        },
        None => None,
    }
}

/// Parse a collector line into timestamp and JSON.
pub fn parse_line<'a>(line: &'a str) -> (r: Option<(i64, &'a str)>)
    ensures
        match r {
            Some((nanos, json)) => line_parts(line@) == Some((nanos, json@)),
            None => line_parts(line@) is None,
        },
{
    match text::split_first(line, ' ') {
        Some((head, tail)) => match text::parse_i64(head) {
            Some(nanos) => Some((nanos, tail)),
            None => None,
        },
        None => None,
    }
}

/// Nanoseconds in whole microseconds, towards zero.
pub open spec fn whole_micros(nanos: i64) -> int {
    if nanos >= 0 {
        nanos as int / 1000
    } else {
        -((-nanos) / 1000)
    }
}

fn to_micros(nanos: i64) -> (r: i64)
    ensures
        r == whole_micros(nanos),
{
    if nanos >= 0 {
        nanos / 1000
    } else {
        let positive: i128 = -(nanos as i128);
        (-(positive / 1000)) as i64
    }
}

/// The millisecond timestamp is a 64-bit number of microseconds.
pub open spec fn micros_fit(millis: i64) -> bool {
    i64::MIN <= millis * 1000 <= i64::MAX
}

fn millis_fit(millis: i64) -> (r: bool)
    ensures
        r == micros_fit(millis),
{
    -9223372036854775 <= millis && millis <= 9223372036854775
}

fn room_for(count: usize, a: usize, b: usize) -> (r: bool)
    ensures
        r == (count + a + b <= usize::MAX),
{
    a <= usize::MAX - count && b <= usize::MAX - count - a
}

/// The columns that every row starts with.
pub open spec fn row_start(
    exchange: Seq<char>,
    symbol: Seq<char>,
    exch_micros: int,
    local_micros: int,
) -> Seq<Seq<char>> {
    seq![exchange, symbol, text::int_text(exch_micros), text::int_text(local_micros)]
}

/// A trade row.
pub open spec fn trade_row(
    exchange: Seq<char>,
    symbol: Seq<char>,
    local_micros: int,
    m: TradeDataModel,
) -> Seq<char> {
    text::joined(
        row_start(exchange, symbol, m.event_time * 1000, local_micros) + seq![
            text::int_text(m.id as int),
            if m.is_buyer_maker {
                "sell"@
            } else {
                "buy"@
            },
            m.price,
            m.qty,
        ],
        ',',
    )
}

/// What the rows of one side have in common.
pub struct SideRows {
    pub exchange: Seq<char>,
    pub symbol: Seq<char>,
    pub exch_micros: int,
    pub local_micros: int,
    pub is_snapshot: bool,
    pub is_bid: bool,
}

/// A depth row.
pub open spec fn depth_row(side: SideRows, level: LevelText) -> Seq<char> {
    text::joined(
        row_start(side.exchange, side.symbol, side.exch_micros, side.local_micros) + seq![
            if side.is_snapshot {
                "true"@
            } else {
                "false"@
            },
            if side.is_bid {
                "bid"@
            } else {
                "ask"@
            },
            level.0,
            level.1,
        ],
        ',',
    )
}

/// The rows of the bids and then of the asks.
pub open spec fn book_rows(
    side: SideRows,
    bids: Seq<LevelText>,
    asks: Seq<LevelText>,
) -> Seq<Seq<char>> {
    bids.map_values(|l: LevelText| depth_row(SideRows { is_bid: true, ..side }, l))
        + asks.map_values(|l: LevelText| depth_row(SideRows { is_bid: false, ..side }, l))
}

/// What has been converted: rows of the two files and counts.
#[verifier::ext_equal]
pub struct CsvModel {
    pub trades: Seq<Seq<char>>,
    pub depth: Seq<Seq<char>>,
    pub stats: StatsModel,
}

/// The kind of a stream: what stands between the first two `@` of its name.
pub open spec fn stream_kind(stream: Seq<char>) -> Seq<char> {
    let parts = text::split(stream, '@');
    if parts.len() > 1 {
        parts[1]
    } else {
        Seq::empty()
    }
}

/// What a line is about.
pub enum LineContent {
    /// No timestamp and JSON text.
    Malformed,
    Trade { symbol: Seq<char>, local_micros: int, trade: TradeDataModel },
    Depth { symbol: Seq<char>, local_micros: int, depth: DepthDataModel },
    BookTicker,
    Snapshot { local_micros: int, snapshot: SnapshotDataModel },
    /// An empty line, another stream, data that cannot be decoded, or a
    /// snapshot that is not wanted.
    Ignored,
}

/// What a line is about: a stream message first, else a snapshot.
pub open spec fn content_of<
    V,
    S: Fn(&str) -> Option<StreamMessage<V>>,
    T: Fn(&V) -> Option<TradeData>,
    D: Fn(&V) -> Option<DepthData>,
    N: Fn(&str) -> Option<SnapshotData>,
>(line: Seq<char>, include_snapshots: bool, d: Decoders<S, T, D, N>) -> LineContent {
    if line.len() == 0 {
        LineContent::Ignored
    } else {
        match line_parts(line) {
            None => LineContent::Malformed,
            Some((nanos, json)) => {
                let local_micros = whole_micros(nanos);
                match decode::text_decoded(d.stream, json) {
                    Some((stream, data)) => {
                        let kind = stream_kind(stream);
                        let symbol = symbol_of_stream(stream);
                        if kind == "trade"@ {
                            match decode::value_decoded(d.trade, data) {
                                Some(trade) => LineContent::Trade { symbol, local_micros, trade },
                                None => LineContent::Ignored,
                            }
                        } else if kind == "depth"@ {
                            match decode::value_decoded(d.depth, data) {
                                Some(depth) => LineContent::Depth { symbol, local_micros, depth },
                                None => LineContent::Ignored,
                            }
                        } else if kind == "bookTicker"@ {
                            LineContent::BookTicker
                        } else {
                            LineContent::Ignored
                        }
                    },
                    None => if include_snapshots {
                        match decode::text_decoded(d.snapshot, json) {
                            Some(snapshot) => LineContent::Snapshot { local_micros, snapshot },
                            None => LineContent::Ignored,
                        }
                    } else {
                        LineContent::Ignored
                    },
                }
            },
        }
    }
}

/// The times of a line are 64-bit numbers of microseconds.
pub open spec fn content_fits(c: LineContent) -> bool {
    match c {
        LineContent::Trade { trade, .. } => micros_fit(trade.event_time),
        LineContent::Depth { depth, .. } => micros_fit(depth.event_time),
        LineContent::Snapshot { snapshot, .. } => micros_fit(snapshot.event_time),
        _ => true,
    }
}

/// Rows and counts after a line.
pub open spec fn after_content(
    out: CsvModel,
    exchange: Seq<char>,
    file_symbol: Seq<char>,
    c: LineContent,
) -> CsvModel {
    match c {
        LineContent::Malformed => CsvModel {
            stats: StatsModel { errors: out.stats.errors + 1, ..out.stats },
            ..out
        },
        LineContent::Trade { symbol, local_micros, trade } => CsvModel {
            trades: out.trades.push(trade_row(exchange, symbol, local_micros, trade)),
            stats: StatsModel { trades: out.stats.trades + 1, ..out.stats },
            ..out
        },
        LineContent::Depth { symbol, local_micros, depth } => CsvModel {
            depth: out.depth + book_rows(
                SideRows {
                    exchange,
                    symbol,
                    exch_micros: depth.event_time * 1000,
                    local_micros,
                    is_snapshot: false,
                    is_bid: true,
                },
                depth.bids,
                depth.asks,
            ),
            stats: StatsModel {
                depth_updates: out.stats.depth_updates + depth.bids.len() + depth.asks.len(),
                ..out.stats
            },
            ..out
        },
        LineContent::BookTicker => CsvModel {
            stats: StatsModel { book_ticker_count: out.stats.book_ticker_count + 1, ..out.stats },
            ..out
        },
        LineContent::Snapshot { local_micros, snapshot } => CsvModel {
            depth: out.depth + book_rows(
                SideRows {
                    exchange,
                    symbol: file_symbol,
                    exch_micros: snapshot.event_time * 1000,
                    local_micros,
                    is_snapshot: true,
                    is_bid: true,
                },
                snapshot.bids,
                snapshot.asks,
            ),
            stats: StatsModel {
                snapshot_entries: out.stats.snapshot_entries + snapshot.bids.len() + snapshot.asks.len(),
                ..out.stats
            },
            ..out
        },
        LineContent::Ignored => out,
    }
}

/// The rows of a conversion and its counts.
pub struct CsvRows {
    /// Rows of the trades file, behind its header.
    pub trades: Vec<String>,
    /// Rows of the depth file, behind its header.
    pub depth: Vec<String>,
    pub stats: ConversionStats,
}

impl View for CsvRows {
    type V = CsvModel;

    open spec fn view(&self) -> CsvModel {
        CsvModel {
            trades: text::strings(self.trades@),
            depth: text::strings(self.depth@),
            stats: self.stats@,
        }
    }
}

/// Header of the trades file.
pub fn trades_header() -> (r: &'static str)
    ensures
        r@ == "exchange,symbol,timestamp,local_timestamp,id,side,price,amount"@,
{
    "exchange,symbol,timestamp,local_timestamp,id,side,price,amount"
}

/// Header of the depth file.
pub fn depth_header() -> (r: &'static str)
    ensures
        r@ == "exchange,symbol,timestamp,local_timestamp,is_snapshot,side,price,amount"@,
{
    "exchange,symbol,timestamp,local_timestamp,is_snapshot,side,price,amount"
}

/// Writes a row of eight columns, of which the third and fourth are timestamps.
fn write_row(
    exchange: &str,
    symbol: &str,
    exch_micros: i64,
    local_micros: i64,
    fifth: &str,
    side: &str,
    price: &str,
    qty: &str,
) -> (r: String)
    ensures
        r@ == text::joined(
            row_start(exchange@, symbol@, exch_micros as int, local_micros as int) + seq![
                fifth@,
                side@,
                price@,
                qty@,
            ],
            ',',
        ),
{
    let exch_text = text::i64_to_text(exch_micros);
    let local_text = text::i64_to_text(local_micros);
    let mut parts: Vec<&str> = Vec::new();
    parts.push(exchange);
    parts.push(symbol);
    parts.push(exch_text.as_str());
    parts.push(local_text.as_str());
    parts.push(fifth);
    parts.push(side);
    parts.push(price);
    parts.push(qty);
    proof {
        reveal_strlit(",");
        assert(text::texts(parts@) =~= row_start(
            exchange@,
            symbol@,
            exch_micros as int,
            local_micros as int,
        ) + seq![fifth@, side@, price@, qty@]);
    }
    text::join_with(&parts, ",")
}

/// Writes the rows of one side.
fn push_side(
    out: &mut Vec<String>,
    exchange: &str,
    symbol: &str,
    exch_micros: i64,
    local_micros: i64,
    is_snapshot: bool,
    is_bid: bool,
    levels: &Vec<(String, String)>,
)
    ensures
        text::strings(final(out)@) == text::strings(old(out)@) + text::levels_view(
            levels@,
        ).map_values(
            |l: LevelText|
                depth_row(
                    SideRows {
                        exchange: exchange@,
                        symbol: symbol@,
                        exch_micros: exch_micros as int,
                        local_micros: local_micros as int,
                        is_snapshot,
                        is_bid,
                    },
                    l,
                ),
        ),
{
    let ghost start = text::strings(out@);
    let ghost side = SideRows {
        exchange: exchange@,
        symbol: symbol@,
        exch_micros: exch_micros as int,
        local_micros: local_micros as int,
        is_snapshot,
        is_bid,
    };
    let ghost rows = text::levels_view(levels@).map_values(|l: LevelText| depth_row(side, l));
    let mut i: usize = 0;
    assert(start + rows.take(0) =~= start);
    while i < levels.len()
        invariant
            i <= levels@.len(),
            rows == text::levels_view(levels@).map_values(|l: LevelText| depth_row(side, l)),
            side == (SideRows {
                exchange: exchange@,
                symbol: symbol@,
                exch_micros: exch_micros as int,
                local_micros: local_micros as int,
                is_snapshot,
                is_bid,
            }),
            text::strings(out@) == start + rows.take(i as int),
        decreases levels@.len() - i,
    {
        let ghost before = text::strings(out@);
        let row = write_row(
            exchange,
            symbol,
            exch_micros,
            local_micros,
            if is_snapshot {
                "true"
            } else {
                "false"
            },
            if is_bid {
                "bid"
            } else {
                "ask"
            },
            levels[i].0.as_str(),
            levels[i].1.as_str(),
        );
        assert(row@ == rows[i as int]);
        out.push(row);
        assert(text::strings(out@) =~= before.push(row@));
        assert(start + rows.take(i as int + 1) =~= before.push(row@));
        i += 1;
    }
    assert(rows.take(i as int) =~= rows);
}

impl CsvRows {
    /// No rows and no counts.
    pub fn new() -> (r: Self)
        ensures
            r@ == no_rows(),
    {
        let r = CsvRows {
            trades: Vec::new(),
            depth: Vec::new(),
            stats: ConversionStats::default(),
        };
        assert(r@.trades =~= Seq::empty());
        assert(r@.depth =~= Seq::empty());
        r
    }

    /// Tells whether the times and the counts after a line fit in machine words.
    pub fn accepts<
        V,
        S: Fn(&str) -> Option<StreamMessage<V>>,
        T: Fn(&V) -> Option<TradeData>,
        D: Fn(&V) -> Option<DepthData>,
        N: Fn(&str) -> Option<SnapshotData>,
    >(
        &self,
        config: &CollectorConvertConfig,
        file_symbol: &str,
        line: &str,
        decoders: &Decoders<S, T, D, N>,
    ) -> (r: bool)
        requires
            decoders_ok(*decoders),
        ensures
            r == (content_fits(content_of(line@, config.include_snapshots, *decoders))
                && stats_fit(
                after_content(
                    self@,
                    config.exchange@,
                    file_symbol@,
                    content_of(line@, config.include_snapshots, *decoders),
                ).stats,
            )),
    {
        if line.is_empty() {
            return true;
        }
        let json: &str = match parse_line(line) {
            Some((_, json)) => json,
            None => return self.stats.errors < usize::MAX,
        };
        match decode::decode_text(&decoders.stream, json) {
            Some(message) => {
                let parts = text::split_on(message.stream.as_str(), '@');
                let ghost names = text::split(message.stream@, '@');
                assert(names == text::texts(parts@));
                if parts.len() < 2 {
                    proof {
                        reveal_strlit("trade");
                        reveal_strlit("depth");
                        reveal_strlit("bookTicker");
                        assert("trade"@.len() > 0 && "depth"@.len() > 0 && "bookTicker"@.len() > 0);
                    }
                    return true;
                }
                assert(parts@[1]@ == names[1]);
                if text::same_text(parts[1], "trade") {
                    match decode::decode_value(&decoders.trade, &message.data) {
                        Some(trade) => millis_fit(trade.event_time) && self.stats.trades
                            < usize::MAX,
                        None => true,
                    }
                } else if text::same_text(parts[1], "depth") {
                    match decode::decode_value(&decoders.depth, &message.data) {
                        Some(depth) => millis_fit(depth.event_time) && room_for(
                            self.stats.depth_updates,
                            depth.bids.len(),
                            depth.asks.len(),
                        ),
                        None => true,
                    }
                } else if text::same_text(parts[1], "bookTicker") {
                    self.stats.book_ticker_count < usize::MAX
                } else {
                    true
                }
            },
            None => {
                if !config.include_snapshots {
                    return true;
                }
                match decode::decode_text(&decoders.snapshot, json) {
                    Some(snapshot) => millis_fit(snapshot.event_time) && room_for(
                        self.stats.snapshot_entries,
                        snapshot.bids.len(),
                        snapshot.asks.len(),
                    ),
                    None => true,
                }
            },
        }
    }

    /// Takes the next line of a collector file.
    pub fn push_line<
        V,
        S: Fn(&str) -> Option<StreamMessage<V>>,
        T: Fn(&V) -> Option<TradeData>,
        D: Fn(&V) -> Option<DepthData>,
        N: Fn(&str) -> Option<SnapshotData>,
    >(
        &mut self,
        config: &CollectorConvertConfig,
        file_symbol: &str,
        line: &str,
        decoders: &Decoders<S, T, D, N>,
    )
        requires
            decoders_ok(*decoders),
            content_fits(content_of(line@, config.include_snapshots, *decoders)),
            stats_fit(
                after_content(
                    old(self)@,
                    config.exchange@,
                    file_symbol@,
                    content_of(line@, config.include_snapshots, *decoders),
                ).stats,
            ),
        ensures
            final(self)@ == after_content(
                old(self)@,
                config.exchange@,
                file_symbol@,
                content_of(line@, config.include_snapshots, *decoders),
            ),
    {
        let ghost start = self@;
        if line.is_empty() {
            return;
        }
        let (local_ts_nanos, json): (i64, &str) = match parse_line(line) {
            Some(parts) => parts,
            None => {
                self.stats.errors = self.stats.errors + 1;
                return;
            },
        };
        let local_micros: i64 = to_micros(local_ts_nanos);
        match decode::decode_text(&decoders.stream, json) {
            Some(message) => {
                let parts = text::split_on(message.stream.as_str(), '@');
                let ghost names = text::split(message.stream@, '@');
                assert(names == text::texts(parts@));
                let kind: &str = if parts.len() > 1 {
                    assert(parts@[1]@ == names[1]);
                    parts[1]
                } else {
                    proof {
                        reveal_strlit("");
                        assert(""@ =~= Seq::empty());
                    }
                    ""
                };
                assert(kind@ == stream_kind(message.stream@));
                let symbol = match extract_symbol(message.stream.as_str()) {
                    Some(symbol) => symbol,
                    None => String::new(),
                };
                if text::same_text(kind, "trade") {
                    if let Some(trade) = decode::decode_value(&decoders.trade, &message.data) {
                        let id_text = text::i64_to_text(trade.id);
                        let row = write_row(
                            config.exchange.as_str(),
                            symbol.as_str(),
                            trade.event_time * 1000,
                            local_micros,
                            id_text.as_str(),
                            if trade.is_buyer_maker {
                                "sell"
                            } else {
                                "buy"
                            },
                            trade.price.as_str(),
                            trade.qty.as_str(),
                        );
                        let ghost row_text = row@;
                        self.trades.push(row);
                        self.stats.trades = self.stats.trades + 1;
                        assert(self@.trades =~= start.trades.push(row_text));
                    }
                } else if text::same_text(kind, "depth") {
                    if let Some(depth) = decode::decode_value(&decoders.depth, &message.data) {
                        let exch_micros: i64 = depth.event_time * 1000;
                        push_side(
                            &mut self.depth,
                            config.exchange.as_str(),
                            symbol.as_str(),
                            exch_micros,
                            local_micros,
                            false,
                            true,
                            &depth.bids,
                        );
                        push_side(
                            &mut self.depth,
                            config.exchange.as_str(),
                            symbol.as_str(),
                            exch_micros,
                            local_micros,
                            false,
                            false,
                            &depth.asks,
                        );
                        self.stats.depth_updates = self.stats.depth_updates + depth.bids.len()
                            + depth.asks.len();
                        assert(self@ =~= after_content(
                            start,
                            config.exchange@,
                            file_symbol@,
                            content_of(line@, config.include_snapshots, *decoders),
                        ));
                    }
                } else if text::same_text(kind, "bookTicker") {
                    self.stats.book_ticker_count = self.stats.book_ticker_count + 1;
                }
            },
            None => {
                if config.include_snapshots {
                    if let Some(snapshot) = decode::decode_text(&decoders.snapshot, json) {
                        let exch_micros: i64 = snapshot.event_time * 1000;
                        push_side(
                            &mut self.depth,
                            config.exchange.as_str(),
                            file_symbol,
                            exch_micros,
                            local_micros,
                            true,
                            true,
                            &snapshot.bids,
                        );
                        push_side(
                            &mut self.depth,
                            config.exchange.as_str(),
                            file_symbol,
                            exch_micros,
                            local_micros,
                            true,
                            false,
                            &snapshot.asks,
                        );
                        self.stats.snapshot_entries = self.stats.snapshot_entries
                            + snapshot.bids.len() + snapshot.asks.len();
                        assert(self@ =~= after_content(
                            start,
                            config.exchange@,
                            file_symbol@,
                            content_of(line@, config.include_snapshots, *decoders),
                        ));
                    }
                }
            },
        }
    }
}

/// A collector file: the stem of its name, where it has one, and its lines.
pub struct CollectorFile {
    pub stem: Option<String>,
    pub lines: Vec<String>,
}

/// What a collector file holds.
pub struct CollectorFileModel {
    pub stem: Option<Seq<char>>,
    pub lines: Seq<Seq<char>>,
}

impl View for CollectorFile {
    type V = CollectorFileModel;

    open spec fn view(&self) -> CollectorFileModel {
        CollectorFileModel {
            stem: decode::opt_view(self.stem),
            lines: text::strings(self.lines@),
        }
    }
}

/// What collector files hold.
pub open spec fn files_view(files: Seq<CollectorFile>) -> Seq<CollectorFileModel> {
    files.map_values(|f: CollectorFile| f@)
}

/// Rows and counts after the lines of a file.
pub open spec fn after_lines<
    V,
    S: Fn(&str) -> Option<StreamMessage<V>>,
    T: Fn(&V) -> Option<TradeData>,
    D: Fn(&V) -> Option<DepthData>,
    N: Fn(&str) -> Option<SnapshotData>,
>(
    out: CsvModel,
    config: CollectorConvertConfig,
    file_symbol: Seq<char>,
    lines: Seq<Seq<char>>,
    d: Decoders<S, T, D, N>,
) -> CsvModel
    decreases lines.len(),
{
    if lines.len() == 0 {
        out
    } else {
        after_content(
            after_lines(out, config, file_symbol, lines.drop_last(), d),
            config.exchange@,
            file_symbol,
            content_of(lines.last(), config.include_snapshots, d),
        )
    }
}

/// Rows and counts after files.
pub open spec fn after_files<
    V,
    S: Fn(&str) -> Option<StreamMessage<V>>,
    T: Fn(&V) -> Option<TradeData>,
    D: Fn(&V) -> Option<DepthData>,
    N: Fn(&str) -> Option<SnapshotData>,
>(
    out: CsvModel,
    config: CollectorConvertConfig,
    files: Seq<CollectorFileModel>,
    d: Decoders<S, T, D, N>,
) -> CsvModel
    decreases files.len(),
{
    if files.len() == 0 {
        out
    } else {
        after_lines(
            after_files(out, config, files.drop_last(), d),
            config,
            symbol_of_file(files.last().stem),
            files.last().lines,
            d,
        )
    }
}

/// Nothing converted yet.
pub open spec fn no_rows() -> CsvModel {
    CsvModel { trades: Seq::empty(), depth: Seq::empty(), stats: no_stats() }
}

/// The times of all lines are 64-bit numbers of microseconds.
pub open spec fn files_fit<
    V,
    S: Fn(&str) -> Option<StreamMessage<V>>,
    T: Fn(&V) -> Option<TradeData>,
    D: Fn(&V) -> Option<DepthData>,
    N: Fn(&str) -> Option<SnapshotData>,
>(
    config: CollectorConvertConfig,
    files: Seq<CollectorFileModel>,
    d: Decoders<S, T, D, N>,
) -> bool {
    forall|i: int, j: int|
        0 <= i < files.len() && 0 <= j < files[i].lines.len() ==> content_fits(
            content_of(#[trigger] files[i].lines[j], config.include_snapshots, d),
        )
}

/// Counts only grow.
spec fn stats_le(a: StatsModel, b: StatsModel) -> bool {
    &&& a.trades <= b.trades
    &&& a.depth_updates <= b.depth_updates
    &&& a.snapshot_entries <= b.snapshot_entries
    &&& a.book_ticker_count <= b.book_ticker_count
    &&& a.errors <= b.errors
}

proof fn lemma_lines_grow<
    V,
    S: Fn(&str) -> Option<StreamMessage<V>>,
    T: Fn(&V) -> Option<TradeData>,
    D: Fn(&V) -> Option<DepthData>,
    N: Fn(&str) -> Option<SnapshotData>,
>(
    out: CsvModel,
    config: CollectorConvertConfig,
    file_symbol: Seq<char>,
    lines: Seq<Seq<char>>,
    i: int,
    d: Decoders<S, T, D, N>,
)
    requires
        0 <= i <= lines.len(),
    ensures
        stats_le(
            after_lines(out, config, file_symbol, lines.take(i), d).stats,
            after_lines(out, config, file_symbol, lines, d).stats,
        ),
    decreases lines.len() - i,
{
    if i < lines.len() {
        assert(lines.take(i + 1).drop_last() =~= lines.take(i));
        lemma_lines_grow(out, config, file_symbol, lines, i + 1, d);
    } else {
        assert(lines.take(i) =~= lines);
    }
}

proof fn lemma_files_grow<
    V,
    S: Fn(&str) -> Option<StreamMessage<V>>,
    T: Fn(&V) -> Option<TradeData>,
    D: Fn(&V) -> Option<DepthData>,
    N: Fn(&str) -> Option<SnapshotData>,
>(
    out: CsvModel,
    config: CollectorConvertConfig,
    files: Seq<CollectorFileModel>,
    i: int,
    d: Decoders<S, T, D, N>,
)
    requires
        0 <= i <= files.len(),
    ensures
        stats_le(
            after_files(out, config, files.take(i), d).stats,
            after_files(out, config, files, d).stats,
        ),
    decreases files.len() - i,
{
    if i < files.len() {
        assert(files.take(i + 1).drop_last() =~= files.take(i));
        let before = after_files(out, config, files.take(i), d);
        let symbol = symbol_of_file(files[i].stem);
        lemma_lines_grow(before, config, symbol, files[i].lines, 0, d);
        assert(files[i].lines.take(0) =~= Seq::empty());
        lemma_files_grow(out, config, files, i + 1, d);
    } else {
        assert(files.take(i) =~= files);
    }
}

/// Convert collector files to Tardis CSV rows.
pub fn convert_to_tardis_csv<
    V,
    S: Fn(&str) -> Option<StreamMessage<V>>,
    T: Fn(&V) -> Option<TradeData>,
    D: Fn(&V) -> Option<DepthData>,
    N: Fn(&str) -> Option<SnapshotData>,
>(
    input_files: &[CollectorFile],
    config: &CollectorConvertConfig,
    decoders: &Decoders<S, T, D, N>,
) -> (r: CsvRows)
    requires
        decoders_ok(*decoders),
        files_fit(*config, files_view(input_files@), *decoders),
        stats_fit(after_files(no_rows(), *config, files_view(input_files@), *decoders).stats),
    ensures
        r@ == after_files(no_rows(), *config, files_view(input_files@), *decoders),
{
    let mut rows = CsvRows::new();
    let ghost files = files_view(input_files@);
    let mut i: usize = 0;
    assert(files.take(0) =~= Seq::empty());
    while i < input_files.len()
        invariant
            decoders_ok(*decoders),
            files == files_view(input_files@),
            files_fit(*config, files, *decoders),
            stats_fit(after_files(no_rows(), *config, files, *decoders).stats),
            i <= input_files@.len(),
            rows@ == after_files(no_rows(), *config, files.take(i as int), *decoders),
        decreases input_files@.len() - i,
    {
        let file = &input_files[i];
        assert(files[i as int] == file@);
        assert(files.take(i as int + 1).drop_last() =~= files.take(i as int));
        let symbol = match &file.stem {
            Some(stem) => snapshot_symbol(Some(stem.as_str())),
            None => snapshot_symbol(None),
        };
        let ghost before = rows@;
        let ghost lines = text::strings(file.lines@);
        let mut j: usize = 0;
        assert(lines.take(0) =~= Seq::empty());
        while j < file.lines.len()
            invariant
                decoders_ok(*decoders),
                i < files.len(),
                files_fit(*config, files, *decoders),
                stats_fit(after_files(no_rows(), *config, files, *decoders).stats),
                files[i as int] == file@,
                files.take(i as int + 1).drop_last() == files.take(i as int),
                before == after_files(no_rows(), *config, files.take(i as int), *decoders),
                symbol@ == symbol_of_file(file@.stem),
                lines == text::strings(file.lines@),
                lines == file@.lines,
                j <= lines.len(),
                rows@ == after_lines(
                    before,
                    *config,
                    symbol@,
                    lines.take(j as int),
                    *decoders,
                ),
            decreases lines.len() - j,
        {
            assert(file.lines@[j as int]@ == lines[j as int]);
            assert(lines[j as int] == files[i as int].lines[j as int]);
            assert(lines.take(j as int + 1).drop_last() =~= lines.take(j as int));
            proof {
                lemma_lines_grow(before, *config, symbol@, lines, j as int + 1, *decoders);
                lemma_files_grow(no_rows(), *config, files, i as int + 1, *decoders);
            }
            rows.push_line(config, symbol.as_str(), file.lines[j].as_str(), decoders);
            j += 1;
        }
        assert(lines.take(j as int) =~= lines);
        i += 1;
    }
    assert(files.take(i as int) =~= files);
    rows
}

} // verus!
