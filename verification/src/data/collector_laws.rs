//! What the conversion of collector files guarantees.

use vstd::prelude::*;

use crate::data::collector;
use crate::data::collector::{
    CollectorConvertConfig, CollectorFileModel, CsvModel, Decoders, DepthData, SideRows,
    SnapshotData, StreamMessage, TradeData, TradeDataModel,
};
use crate::data::tardis;
use crate::data::tardis::{DepthRecordModel, TradeModel};
use crate::numbers;
use crate::text;
use crate::text::LevelText;
use crate::text_laws;

verus! {

/// A column that can stand in a row: it holds no comma.
pub open spec fn is_column(s: Seq<char>) -> bool {
    !s.contains(',')
}

proof fn lemma_row_splits(start: Seq<Seq<char>>, rest: Seq<Seq<char>>)
    requires
        start.len() == 4,
        rest.len() == 4,
        forall|i: int| 0 <= i < 4 ==> is_column(#[trigger] start[i]),
        forall|i: int| 0 <= i < 4 ==> is_column(#[trigger] rest[i]),
    ensures
        text::split(text::joined(start + rest, ','), ',') == start + rest,
{
    let parts = start + rest;
    assert forall|i: int| 0 <= i < parts.len() implies !(#[trigger] parts[i]).contains(',') by {
        if i < 4 {
            assert(is_column(start[i]));
        } else {
            assert(is_column(rest[i - 4]));
        }
    }
    text_laws::law_join_and_split(parts, ',');
}

/// A trade row reads back as the trade it was written from: same times, side,
/// price and quantity.
pub proof fn law_trade_row_reads_back<F, P: Fn(&str) -> Option<F>>(
    parse: P,
    exchange: Seq<char>,
    symbol: Seq<char>,
    local_micros: i64,
    m: TradeDataModel,
)
    requires
        is_column(exchange),
        is_column(symbol),
        is_column(m.price),
        is_column(m.qty),
        collector::micros_fit(m.event_time),
        numbers::number_in(parse, m.price) is Some,
        numbers::number_in(parse, m.qty) is Some,
    ensures
        tardis::trade_in(
            parse,
            collector::trade_row(exchange, symbol, local_micros as int, m),
        ) == Some(
            TradeModel {
                timestamp: (m.event_time * 1000) as i64,
                local_timestamp: local_micros,
                side: if m.is_buyer_maker {
                    "sell"@
                } else {
                    "buy"@
                },
                price: numbers::number_in(parse, m.price)->0,
                amount: numbers::number_in(parse, m.qty)->0,
            },
        ),
{
    let exch_micros = (m.event_time * 1000) as i64;
    let start = collector::row_start(
        exchange,
        symbol,
        exch_micros as int,
        local_micros as int,
    );
    let side = if m.is_buyer_maker {
        "sell"@
    } else {
        "buy"@
    };
    let rest = seq![text::int_text(m.id as int), side, m.price, m.qty];
    reveal_strlit("sell");
    reveal_strlit("buy");
    text_laws::lemma_int_text_chars(exch_micros as int, ',');
    text_laws::lemma_int_text_chars(local_micros as int, ',');
    text_laws::lemma_int_text_chars(m.id as int, ',');
    text_laws::law_integer_round_trip(exch_micros);
    text_laws::law_integer_round_trip(local_micros);
    assert(is_column(side));
    lemma_row_splits(start, rest);
}

/// A depth row reads back as the level it was written from: same times, side,
/// price and quantity, and whether it belongs to a snapshot.
pub proof fn law_depth_row_reads_back<F, P: Fn(&str) -> Option<F>>(
    parse: P,
    side: SideRows,
    exch_micros: i64,
    local_micros: i64,
    level: LevelText,
)
    requires
        is_column(side.exchange),
        is_column(side.symbol),
        side.exch_micros == exch_micros,
        side.local_micros == local_micros,
        is_column(level.0),
        is_column(level.1),
        numbers::number_in(parse, level.0) is Some,
        numbers::number_in(parse, level.1) is Some,
    ensures
        tardis::depth_in(parse, collector::depth_row(side, level)) == Some(
            DepthRecordModel {
                timestamp: exch_micros,
                local_timestamp: local_micros,
                is_snapshot: side.is_snapshot,
                side: if side.is_bid {
                    "bid"@
                } else {
                    "ask"@
                },
                price: numbers::number_in(parse, level.0)->0,
                amount: numbers::number_in(parse, level.1)->0,
            },
        ),
{
    let start = collector::row_start(
        side.exchange,
        side.symbol,
        exch_micros as int,
        local_micros as int,
    );
    let flag = if side.is_snapshot {
        "true"@
    } else {
        "false"@
    };
    let name = if side.is_bid {
        "bid"@
    } else {
        "ask"@
    };
    let rest = seq![flag, name, level.0, level.1];
    reveal_strlit("true");
    reveal_strlit("false");
    reveal_strlit("bid");
    reveal_strlit("ask");
    assert("true"@[0] != "false"@[0]);
    text_laws::lemma_int_text_chars(exch_micros as int, ',');
    text_laws::lemma_int_text_chars(local_micros as int, ',');
    text_laws::law_integer_round_trip(exch_micros);
    text_laws::law_integer_round_trip(local_micros);
    assert(is_column(flag));
    assert(is_column(name));
    lemma_row_splits(start, rest);
}

/// The counts say how many rows there are.
pub open spec fn counts_match(out: CsvModel) -> bool {
    &&& out.stats.trades == out.trades.len()
    &&& out.stats.depth_updates + out.stats.snapshot_entries == out.depth.len()
}

proof fn lemma_lines_counts_match<
    V,
    S: Fn(&str) -> Option<StreamMessage<V>>,
    T: Fn(&V) -> Option<TradeData>,
    D: Fn(&V) -> Option<DepthData>,
    N: Fn(&str) -> Option<SnapshotData>,
>(
    out: CsvModel,
    config: CollectorConvertConfig,
    file_symbol: Seq<char>,
    lines: Seq<Seq<char>>,
    d: Decoders<S, T, D, N>,
)
    requires
        counts_match(out),
    ensures
        counts_match(collector::after_lines(out, config, file_symbol, lines, d)),
    decreases lines.len(),
{
    if lines.len() > 0 {
        lemma_lines_counts_match(out, config, file_symbol, lines.drop_last(), d);
    }
}

/// The statistics of a conversion count exactly the rows that were written.
pub proof fn law_stats_count_rows<
    V,
    S: Fn(&str) -> Option<StreamMessage<V>>,
    T: Fn(&V) -> Option<TradeData>,
    D: Fn(&V) -> Option<DepthData>,
    N: Fn(&str) -> Option<SnapshotData>,
>(config: CollectorConvertConfig, files: Seq<CollectorFileModel>, d: Decoders<S, T, D, N>)
    ensures
        counts_match(collector::after_files(collector::no_rows(), config, files, d)),
    decreases files.len(),
{
    if files.len() > 0 {
        law_stats_count_rows(config, files.drop_last(), d);
        lemma_lines_counts_match(
            collector::after_files(collector::no_rows(), config, files.drop_last(), d),
            config,
            collector::symbol_of_file(files.last().stem),
            files.last().lines,
            d,
        );
    }
}

} // verus!
