//! Which rows the lines of collector files become.

use vstd::prelude::*;

use crate::collector::file;
use crate::data::collector;
use crate::data::collector::{
    CollectorConvertConfig, CollectorFileModel, CsvModel, Decoders, DepthData, DepthDataModel,
    SnapshotData, SnapshotDataModel, StatsModel, StreamMessage, TradeData, TradeDataModel,
};
use crate::data::collector_laws;
use crate::data::tardis;
use crate::decode;
use crate::numbers;
use crate::text;
use crate::text::LevelText;
use crate::text_laws;

verus! {

/// Nanoseconds in whole microseconds are the thousandth part, towards zero.
pub proof fn law_whole_micros(nanos: i64)
    ensures
        nanos >= 0 ==> collector::whole_micros(nanos) == nanos as int / 1000,
        nanos >= 0 ==> 1000 * collector::whole_micros(nanos) <= nanos < 1000
            * collector::whole_micros(nanos) + 1000,
        nanos < 0 ==> 1000 * collector::whole_micros(nanos) - 1000 < nanos <= 1000
            * collector::whole_micros(nanos),
{
}

proof fn lemma_joined_starts(parts: Seq<Seq<char>>, sep: char)
    requires
        parts.len() > 0,
        forall|i: int| 0 <= i < parts.len() ==> !(#[trigger] parts[i]).contains(sep),
    ensures
        ({
            let s = text::joined(parts, sep);
            &&& text::first_at(s, sep) == parts[0].len()
            &&& s.take(text::first_at(s, sep)) == parts[0]
        }),
{
    lemma_joined_front(parts, sep);
    let s = text::joined(parts, sep);
    assert(!parts[0].contains(sep));
    assert forall|j: int| 0 <= j < parts[0].len() implies s[j] != sep by {
        assert(s[j] == parts[0][j]);
    }
    text::lemma_first_at(s, sep, parts[0].len() as int);
    assert(s.take(parts[0].len() as int) =~= parts[0]);
}

proof fn lemma_joined_front(parts: Seq<Seq<char>>, sep: char)
    requires
        parts.len() > 0,
    ensures
        ({
            let s = text::joined(parts, sep);
            &&& s.len() >= parts[0].len()
            &&& forall|j: int| 0 <= j < parts[0].len() ==> #[trigger] s[j] == parts[0][j]
            &&& parts.len() > 1 ==> s.len() > parts[0].len() && s[parts[0].len() as int] == sep
            &&& parts.len() == 1 ==> s == parts[0]
        }),
    decreases parts.len(),
{
    if parts.len() > 1 {
        lemma_joined_front(parts.drop_last(), sep);
    }
}

/// A stream is known by the parts of its name: the first one is the symbol, in
/// upper case, and the second one the kind.
pub proof fn law_parts_of_a_stream_name(parts: Seq<Seq<char>>)
    requires
        parts.len() > 0,
        forall|i: int| 0 <= i < parts.len() ==> !(#[trigger] parts[i]).contains('@'),
    ensures
        collector::symbol_of_stream(text::joined(parts, '@')) == text::in_upper_case(parts[0]),
        collector::stream_kind(text::joined(parts, '@')) == (if parts.len() > 1 {
            parts[1]
        } else {
            Seq::empty()
        }),
{
    lemma_joined_starts(parts, '@');
    text_laws::law_join_and_split(parts, '@');
}

/// The snapshots of a file belong to the symbol that its name begins with.
pub proof fn law_symbol_of_a_file(parts: Seq<Seq<char>>)
    requires
        parts.len() > 0,
        forall|i: int| 0 <= i < parts.len() ==> !(#[trigger] parts[i]).contains('_'),
    ensures
        collector::symbol_of_file(Some(text::joined(parts, '_'))) == text::in_upper_case(parts[0]),
        collector::symbol_of_file(None) == "BTCUSDT"@,
{
    lemma_joined_starts(parts, '_');
}

/// The parts of a stream's name, of which the second one is its kind.
pub open spec fn names_stream(parts: Seq<Seq<char>>, stream: Seq<char>, kind: Seq<char>) -> bool {
    &&& parts.len() > 1
    &&& forall|i: int| 0 <= i < parts.len() ==> !(#[trigger] parts[i]).contains('@')
    &&& stream == text::joined(parts, '@')
    &&& parts[1] == kind
}

/// Rows and counts after a line that the collector has written.
pub open spec fn after_written_line<
    V,
    S: Fn(&str) -> Option<StreamMessage<V>>,
    T: Fn(&V) -> Option<TradeData>,
    D: Fn(&V) -> Option<DepthData>,
    N: Fn(&str) -> Option<SnapshotData>,
>(
    out: CsvModel,
    exchange: Seq<char>,
    file_symbol: Seq<char>,
    nanos: i64,
    json: Seq<char>,
    include_snapshots: bool,
    d: Decoders<S, T, D, N>,
) -> CsvModel {
    collector::after_content(
        out,
        exchange,
        file_symbol,
        collector::content_of(
            text::int_text(nanos as int) + " "@ + json,
            include_snapshots,
            d,
        ),
    )
}

proof fn lemma_written_line(nanos: i64, json: Seq<char>)
    ensures
        collector::line_parts(text::int_text(nanos as int) + " "@ + json) == Some((nanos, json)),
        (text::int_text(nanos as int) + " "@ + json).len() > 0,
{
    file::law_line_reads_back(nanos, json);
    reveal_strlit(" ");
    assert(file::line_text(nanos, json) == text::int_text(nanos as int) + " "@ + json);
}

/// A trade that was received at a time becomes one row behind those that are
/// there: the exchange and the symbol, the trade's own time and the time of
/// receipt in microseconds, its identifier, the side of the taker, price and
/// quantity. Nothing else changes but the count of trades.
pub proof fn law_trade_line<
    V,
    S: Fn(&str) -> Option<StreamMessage<V>>,
    T: Fn(&V) -> Option<TradeData>,
    D: Fn(&V) -> Option<DepthData>,
    N: Fn(&str) -> Option<SnapshotData>,
>(
    out: CsvModel,
    exchange: Seq<char>,
    file_symbol: Seq<char>,
    nanos: i64,
    json: Seq<char>,
    include_snapshots: bool,
    d: Decoders<S, T, D, N>,
    parts: Seq<Seq<char>>,
    stream: Seq<char>,
    data: V,
    trade: TradeDataModel,
)
    requires
        decode::text_decoded(d.stream, json) == Some((stream, data)),
        names_stream(parts, stream, "trade"@),
        decode::value_decoded(d.trade, data) == Some(trade),
    ensures
        ({
            let after = after_written_line(
                out,
                exchange,
                file_symbol,
                nanos,
                json,
                include_snapshots,
                d,
            );
            &&& after.trades.len() == out.trades.len() + 1
            &&& after.trades.drop_last() == out.trades
            &&& after.trades.last() == text::joined(
                seq![
                    exchange,
                    text::in_upper_case(parts[0]),
                    text::int_text(trade.event_time * 1000),
                    text::int_text(collector::whole_micros(nanos)),
                    text::int_text(trade.id as int),
                    if trade.is_buyer_maker {
                        "sell"@
                    } else {
                        "buy"@
                    },
                    trade.price,
                    trade.qty,
                ],
                ',',
            )
            &&& after.depth == out.depth
            &&& after.stats == (StatsModel { trades: out.stats.trades + 1, ..out.stats })
        }),
{
    lemma_written_line(nanos, json);
    law_parts_of_a_stream_name(parts);
    let after = after_written_line(out, exchange, file_symbol, nanos, json, include_snapshots, d);
    assert(after.trades.drop_last() =~= out.trades);
    let columns = seq![
        exchange,
        text::in_upper_case(parts[0]),
        text::int_text(trade.event_time * 1000),
        text::int_text(collector::whole_micros(nanos)),
        text::int_text(trade.id as int),
        if trade.is_buyer_maker {
            "sell"@
        } else {
            "buy"@
        },
        trade.price,
        trade.qty,
    ];
    assert(collector::row_start(
        exchange,
        text::in_upper_case(parts[0]),
        trade.event_time * 1000,
        collector::whole_micros(nanos),
    ) + columns.skip(4) =~= columns);
    assert(columns.skip(4) =~= seq![columns[4], columns[5], columns[6], columns[7]]);
}

/// The row of a trade reads back with the trade's time and the time of receipt
/// in microseconds, so that the latency of the feed is kept.
pub proof fn law_trade_line_reads_back<
    V,
    S: Fn(&str) -> Option<StreamMessage<V>>,
    T: Fn(&V) -> Option<TradeData>,
    D: Fn(&V) -> Option<DepthData>,
    N: Fn(&str) -> Option<SnapshotData>,
    F,
    P: Fn(&str) -> Option<F>,
>(
    out: CsvModel,
    exchange: Seq<char>,
    file_symbol: Seq<char>,
    nanos: i64,
    json: Seq<char>,
    include_snapshots: bool,
    d: Decoders<S, T, D, N>,
    parts: Seq<Seq<char>>,
    stream: Seq<char>,
    data: V,
    trade: TradeDataModel,
    parse: P,
)
    requires
        decode::text_decoded(d.stream, json) == Some((stream, data)),
        names_stream(parts, stream, "trade"@),
        decode::value_decoded(d.trade, data) == Some(trade),
        nanos >= 0,
        collector::micros_fit(trade.event_time),
        collector_laws::is_column(exchange),
        collector_laws::is_column(text::in_upper_case(parts[0])),
        collector_laws::is_column(trade.price),
        collector_laws::is_column(trade.qty),
        numbers::number_in(parse, trade.price) is Some,
        numbers::number_in(parse, trade.qty) is Some,
    ensures
        ({
            let after = after_written_line(
                out,
                exchange,
                file_symbol,
                nanos,
                json,
                include_snapshots,
                d,
            );
            let read = tardis::trade_in(parse, after.trades.last());
            &&& read is Some
            &&& read->0.timestamp == trade.event_time * 1000
            &&& read->0.local_timestamp == nanos as int / 1000
            &&& read->0.side == (if trade.is_buyer_maker {
                "sell"@
            } else {
                "buy"@
            })
            &&& Some(read->0.price) == numbers::number_in(parse, trade.price)
            &&& Some(read->0.amount) == numbers::number_in(parse, trade.qty)
        }),
{
    lemma_written_line(nanos, json);
    law_parts_of_a_stream_name(parts);
    law_whole_micros(nanos);
    let local_micros = (nanos as int / 1000) as i64;
    collector_laws::law_trade_row_reads_back(
        parse,
        exchange,
        text::in_upper_case(parts[0]),
        local_micros,
        trade,
    );
}

/// A row of a depth file.
pub open spec fn is_depth_row(
    row: Seq<char>,
    exchange: Seq<char>,
    symbol: Seq<char>,
    exch_micros: int,
    local_micros: int,
    is_snapshot: bool,
    is_bid: bool,
    level: LevelText,
) -> bool {
    row == text::joined(
        seq![
            exchange,
            symbol,
            text::int_text(exch_micros),
            text::int_text(local_micros),
            if is_snapshot {
                "true"@
            } else {
                "false"@
            },
            if is_bid {
                "bid"@
            } else {
                "ask"@
            },
            level.0,
            level.1,
        ],
        ',',
    )
}

/// The rows are those of all bids and then of all asks, in turn.
pub open spec fn are_depth_rows(
    rows: Seq<Seq<char>>,
    exchange: Seq<char>,
    symbol: Seq<char>,
    exch_micros: int,
    local_micros: int,
    is_snapshot: bool,
    bids: Seq<LevelText>,
    asks: Seq<LevelText>,
) -> bool {
    &&& rows.len() == bids.len() + asks.len()
    &&& forall|i: int|
        0 <= i < bids.len() ==> is_depth_row(
            rows[i],
            exchange,
            symbol,
            exch_micros,
            local_micros,
            is_snapshot,
            true,
            #[trigger] bids[i],
        )
    &&& forall|i: int|
        0 <= i < asks.len() ==> is_depth_row(
            rows[bids.len() + i],
            exchange,
            symbol,
            exch_micros,
            local_micros,
            is_snapshot,
            false,
            #[trigger] asks[i],
        )
}

proof fn lemma_depth_row(side: collector::SideRows, level: LevelText)
    ensures
        is_depth_row(
            collector::depth_row(side, level),
            side.exchange,
            side.symbol,
            side.exch_micros,
            side.local_micros,
            side.is_snapshot,
            side.is_bid,
            level,
        ),
{
    let columns = seq![
        side.exchange,
        side.symbol,
        text::int_text(side.exch_micros),
        text::int_text(side.local_micros),
        if side.is_snapshot {
            "true"@
        } else {
            "false"@
        },
        if side.is_bid {
            "bid"@
        } else {
            "ask"@
        },
        level.0,
        level.1,
    ];
    assert(collector::row_start(
        side.exchange,
        side.symbol,
        side.exch_micros,
        side.local_micros,
    ) + seq![columns[4], columns[5], columns[6], columns[7]] =~= columns);
}

proof fn lemma_book_rows(
    side: collector::SideRows,
    bids: Seq<LevelText>,
    asks: Seq<LevelText>,
)
    ensures
        are_depth_rows(
            collector::book_rows(side, bids, asks),
            side.exchange,
            side.symbol,
            side.exch_micros,
            side.local_micros,
            side.is_snapshot,
            bids,
            asks,
        ),
{
    let rows = collector::book_rows(side, bids, asks);
    let on_bid = collector::SideRows { is_bid: true, ..side };
    let on_ask = collector::SideRows { is_bid: false, ..side };
    assert forall|i: int| 0 <= i < bids.len() implies is_depth_row(
        rows[i],
        side.exchange,
        side.symbol,
        side.exch_micros,
        side.local_micros,
        side.is_snapshot,
        true,
        #[trigger] bids[i],
    ) by {
        lemma_depth_row(on_bid, bids[i]);
        assert(rows[i] == collector::depth_row(on_bid, bids[i]));
    }
    assert forall|i: int| 0 <= i < asks.len() implies is_depth_row(
        rows[bids.len() + i],
        side.exchange,
        side.symbol,
        side.exch_micros,
        side.local_micros,
        side.is_snapshot,
        false,
        #[trigger] asks[i],
    ) by {
        lemma_depth_row(on_ask, asks[i]);
        assert(rows[bids.len() + i] == collector::depth_row(on_ask, asks[i]));
    }
}

/// A depth update that was received at a time becomes one row for each level,
/// bids before asks, behind those that are there: with the update's own time
/// and the time of receipt in microseconds. Nothing else changes but the count
/// of levels.
pub proof fn law_depth_line<
    V,
    S: Fn(&str) -> Option<StreamMessage<V>>,
    T: Fn(&V) -> Option<TradeData>,
    D: Fn(&V) -> Option<DepthData>,
    N: Fn(&str) -> Option<SnapshotData>,
>(
    out: CsvModel,
    exchange: Seq<char>,
    file_symbol: Seq<char>,
    nanos: i64,
    json: Seq<char>,
    include_snapshots: bool,
    d: Decoders<S, T, D, N>,
    parts: Seq<Seq<char>>,
    stream: Seq<char>,
    data: V,
    depth: DepthDataModel,
)
    requires
        decode::text_decoded(d.stream, json) == Some((stream, data)),
        names_stream(parts, stream, "depth"@),
        decode::value_decoded(d.depth, data) == Some(depth),
    ensures
        ({
            let after = after_written_line(
                out,
                exchange,
                file_symbol,
                nanos,
                json,
                include_snapshots,
                d,
            );
            &&& after.trades == out.trades
            &&& after.depth.len() >= out.depth.len()
            &&& after.depth.take(out.depth.len() as int) == out.depth
            &&& are_depth_rows(
                after.depth.skip(out.depth.len() as int),
                exchange,
                text::in_upper_case(parts[0]),
                depth.event_time * 1000,
                collector::whole_micros(nanos),
                false,
                depth.bids,
                depth.asks,
            )
            &&& after.stats == (StatsModel {
                depth_updates: out.stats.depth_updates + depth.bids.len() + depth.asks.len(),
                ..out.stats
            })
        }),
{
    lemma_written_line(nanos, json);
    law_parts_of_a_stream_name(parts);
    lemma_kinds_differ();
    let after = after_written_line(out, exchange, file_symbol, nanos, json, include_snapshots, d);
    let side = collector::SideRows {
        exchange,
        symbol: text::in_upper_case(parts[0]),
        exch_micros: depth.event_time * 1000,
        local_micros: collector::whole_micros(nanos),
        is_snapshot: false,
        is_bid: true,
    };
    lemma_book_rows(side, depth.bids, depth.asks);
    assert(after.depth.take(out.depth.len() as int) =~= out.depth);
    assert(after.depth.skip(out.depth.len() as int) =~= collector::book_rows(
        side,
        depth.bids,
        depth.asks,
    ));
}

proof fn lemma_kinds_differ()
    ensures
        "trade"@ != "depth"@,
        "trade"@ != "bookTicker"@,
        "depth"@ != "bookTicker"@,
{
    reveal_strlit("trade");
    reveal_strlit("depth");
    reveal_strlit("bookTicker");
    assert("trade"@[0] != "depth"@[0]);
    assert("trade"@.len() != "bookTicker"@.len());
    assert("depth"@.len() != "bookTicker"@.len());
}

/// A snapshot that is wanted becomes one row for each level, bids before asks,
/// under the symbol of the file; one that is not wanted changes nothing.
pub proof fn law_snapshot_line<
    V,
    S: Fn(&str) -> Option<StreamMessage<V>>,
    T: Fn(&V) -> Option<TradeData>,
    D: Fn(&V) -> Option<DepthData>,
    N: Fn(&str) -> Option<SnapshotData>,
>(
    out: CsvModel,
    exchange: Seq<char>,
    file_symbol: Seq<char>,
    nanos: i64,
    json: Seq<char>,
    include_snapshots: bool,
    d: Decoders<S, T, D, N>,
    snapshot: SnapshotDataModel,
)
    requires
        decode::text_decoded(d.stream, json) is None,
        decode::text_decoded(d.snapshot, json) == Some(snapshot),
    ensures
        ({
            let after = after_written_line(
                out,
                exchange,
                file_symbol,
                nanos,
                json,
                include_snapshots,
                d,
            );
            &&& !include_snapshots ==> after == out
            &&& include_snapshots ==> {
                &&& after.trades == out.trades
                &&& after.depth.len() >= out.depth.len()
                &&& after.depth.take(out.depth.len() as int) == out.depth
                &&& are_depth_rows(
                    after.depth.skip(out.depth.len() as int),
                    exchange,
                    file_symbol,
                    snapshot.event_time * 1000,
                    collector::whole_micros(nanos),
                    true,
                    snapshot.bids,
                    snapshot.asks,
                )
                &&& after.stats == (StatsModel {
                    snapshot_entries: out.stats.snapshot_entries + snapshot.bids.len()
                        + snapshot.asks.len(),
                    ..out.stats
                })
            }
        }),
{
    lemma_written_line(nanos, json);
    let after = after_written_line(out, exchange, file_symbol, nanos, json, include_snapshots, d);
    let side = collector::SideRows {
        exchange,
        symbol: file_symbol,
        exch_micros: snapshot.event_time * 1000,
        local_micros: collector::whole_micros(nanos),
        is_snapshot: true,
        is_bid: true,
    };
    lemma_book_rows(side, snapshot.bids, snapshot.asks);
    if include_snapshots {
        assert(after.depth.take(out.depth.len() as int) =~= out.depth);
        assert(after.depth.skip(out.depth.len() as int) =~= collector::book_rows(
            side,
            snapshot.bids,
            snapshot.asks,
        ));
    }
}

/// Lines of other content add no rows: book tickers are counted, as are lines
/// without a timestamp, and all else is passed over.
pub proof fn law_lines_without_rows<
    V,
    S: Fn(&str) -> Option<StreamMessage<V>>,
    T: Fn(&V) -> Option<TradeData>,
    D: Fn(&V) -> Option<DepthData>,
    N: Fn(&str) -> Option<SnapshotData>,
>(
    out: CsvModel,
    exchange: Seq<char>,
    file_symbol: Seq<char>,
    line: Seq<char>,
    include_snapshots: bool,
    d: Decoders<S, T, D, N>,
)
    ensures
        ({
            let after = collector::after_content(
                out,
                exchange,
                file_symbol,
                collector::content_of(line, include_snapshots, d),
            );
            let parts = collector::line_parts(line);
            let message = decode::text_decoded(d.stream, (parts->0).1);
            let kind = collector::stream_kind((message->0).0);
            &&& line.len() == 0 ==> after == out
            &&& line.len() > 0 && parts is None ==> after == (CsvModel {
                stats: StatsModel { errors: out.stats.errors + 1, ..out.stats },
                ..out
            })
            &&& line.len() > 0 && parts is Some && message is Some ==> {
                &&& kind == "bookTicker"@ ==> after == (CsvModel {
                    stats: StatsModel {
                        book_ticker_count: out.stats.book_ticker_count + 1,
                        ..out.stats
                    },
                    ..out
                })
                &&& kind != "bookTicker"@ && kind != "trade"@ && kind != "depth"@ ==> after == out
                &&& kind == "trade"@ && decode::value_decoded(
                    d.trade,
                    (message->0).1,
                ) is None ==> after == out
                &&& kind == "depth"@ && decode::value_decoded(
                    d.depth,
                    (message->0).1,
                ) is None ==> after == out
            }
            &&& line.len() > 0 && parts is Some && message is None && decode::text_decoded(
                d.snapshot,
                (parts->0).1,
            ) is None ==> after == out
        }),
{
    lemma_kinds_differ();
}

/// The lines of a file are taken one by one, and so are the files: each adds
/// to what was there before it.
pub proof fn law_lines_and_files_in_turn<
    V,
    S: Fn(&str) -> Option<StreamMessage<V>>,
    T: Fn(&V) -> Option<TradeData>,
    D: Fn(&V) -> Option<DepthData>,
    N: Fn(&str) -> Option<SnapshotData>,
>(
    out: CsvModel,
    config: CollectorConvertConfig,
    files: Seq<CollectorFileModel>,
    file: CollectorFileModel,
    line: Seq<char>,
    d: Decoders<S, T, D, N>,
)
    ensures
        collector::after_files(out, config, files.push(file), d) == collector::after_lines(
            collector::after_files(out, config, files, d),
            config,
            collector::symbol_of_file(file.stem),
            file.lines,
            d,
        ),
        collector::after_lines(
            out,
            config,
            collector::symbol_of_file(file.stem),
            file.lines.push(line),
            d,
        ) == collector::after_content(
            collector::after_lines(
                out,
                config,
                collector::symbol_of_file(file.stem),
                file.lines,
                d,
            ),
            config.exchange@,
            collector::symbol_of_file(file.stem),
            collector::content_of(line, config.include_snapshots, d),
        ),
        collector::after_files(out, config, Seq::empty(), d) == out,
        collector::after_lines(
            out,
            config,
            collector::symbol_of_file(file.stem),
            Seq::empty(),
            d,
        ) == out,
        collector::no_rows().trades.len() == 0,
        collector::no_rows().depth.len() == 0,
        collector::no_rows().stats == (StatsModel {
            trades: 0,
            depth_updates: 0,
            snapshot_entries: 0,
            book_ticker_count: 0,
            errors: 0,
        }),
{
    assert(files.push(file).drop_last() =~= files);
    assert(file.lines.push(line).drop_last() =~= file.lines);
}

} // verus!
