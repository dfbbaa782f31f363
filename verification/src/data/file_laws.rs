//! How lines and files follow each other in a conversion, and what the parts
//! of the last stage stand for.

use vstd::prelude::*;

use crate::connector::market_data;
use crate::data::collector;
use crate::data::collector::{
    CollectorFile, ConversionStats, CsvRows, DepthData, Decoders, SnapshotData, StreamMessage,
    TradeData,
};
use crate::data::normalize;
use crate::data::order_laws;
use crate::data::sort;
use crate::data::tardis;
use crate::data::tardis::{ConvertState, TardisFile, TardisFileModel};
use crate::data::tardis_fast;
use crate::data::validation;
use crate::data::validation::Pick;
use crate::numbers::Numbers;
use crate::text;
use crate::types::Event;

verus! {

/// Data files are taken whole: name, header and every line.
pub proof fn law_data_files_are_taken_whole(files: Seq<TardisFile>)
    ensures
        tardis::files_view(files).len() == files.len(),
        forall|i: int|
            0 <= i < files.len() ==> {
                let file = #[trigger] tardis::files_view(files)[i];
                &&& file.name == files[i].name@
                &&& file.header == files[i].header@
                &&& file.lines.len() == files[i].lines@.len()
                &&& forall|j: int|
                    0 <= j < files[i].lines@.len() ==> #[trigger] file.lines[j]
                        == files[i].lines@[j]@
            },
{
}

/// Collector files are taken whole: the stem and every line.
pub proof fn law_collector_files_are_taken_whole(files: Seq<CollectorFile>)
    ensures
        collector::files_view(files).len() == files.len(),
        forall|i: int|
            0 <= i < files.len() ==> {
                let file = #[trigger] collector::files_view(files)[i];
                &&& files[i].stem is None ==> file.stem is None
                &&& files[i].stem is Some ==> file.stem == Some(files[i].stem->0@)
                &&& file.lines.len() == files[i].lines@.len()
                &&& forall|j: int|
                    0 <= j < files[i].lines@.len() ==> #[trigger] file.lines[j]
                        == files[i].lines@[j]@
            },
{
}

/// Rows and counts are taken as they stand, and a conversion starts with none.
pub proof fn law_rows_are_taken_whole(rows: CsvRows, stats: ConversionStats)
    ensures
        rows@.trades.len() == rows.trades@.len(),
        forall|i: int|
            0 <= i < rows.trades@.len() ==> #[trigger] rows@.trades[i] == rows.trades@[i]@,
        rows@.depth.len() == rows.depth@.len(),
        forall|i: int|
            0 <= i < rows.depth@.len() ==> #[trigger] rows@.depth[i] == rows.depth@[i]@,
        rows@.stats == rows.stats@,
        stats@.trades == stats.trades,
        stats@.depth_updates == stats.depth_updates,
        stats@.snapshot_entries == stats.snapshot_entries,
        stats@.book_ticker_count == stats.book_ticker_count,
        stats@.errors == stats.errors,
        collector::no_stats().trades == 0,
        collector::no_stats().depth_updates == 0,
        collector::no_stats().snapshot_entries == 0,
        collector::no_stats().book_ticker_count == 0,
        collector::no_stats().errors == 0,
        collector::no_rows().stats == collector::no_stats(),
        collector::no_rows().trades.len() == 0,
        collector::no_rows().depth.len() == 0,
{
}

/// Decoded messages are taken as they stand.
pub proof fn law_decoded_messages_are_taken_whole<V>(
    m: StreamMessage<V>,
    t: TradeData,
    d: DepthData,
    s: SnapshotData,
)
    ensures
        m@ == (m.stream@, m.data),
        t@.event_time == t.event_time,
        t@.symbol == t.symbol@,
        t@.id == t.id,
        t@.price == t.price@,
        t@.qty == t.qty@,
        t@.is_buyer_maker == t.is_buyer_maker,
        d@.event_time == d.event_time,
        d@.symbol == d.symbol@,
        d@.bids.len() == d.bids@.len(),
        forall|i: int|
            0 <= i < d.bids@.len() ==> #[trigger] d@.bids[i] == (d.bids@[i].0@, d.bids@[i].1@),
        d@.asks.len() == d.asks@.len(),
        forall|i: int|
            0 <= i < d.asks@.len() ==> #[trigger] d@.asks[i] == (d.asks@[i].0@, d.asks@[i].1@),
        s@.last_update_id == s.last_update_id,
        s@.event_time == s.event_time,
        s@.transaction_time == s.transaction_time,
        s@.bids.len() == s.bids@.len(),
        forall|i: int|
            0 <= i < s.bids@.len() ==> #[trigger] s@.bids[i] == (s.bids@[i].0@, s.bids@[i].1@),
        s@.asks.len() == s.asks@.len(),
        forall|i: int|
            0 <= i < s.asks@.len() ==> #[trigger] s@.asks[i] == (s.asks@[i].0@, s.asks@[i].1@),
{
}

/// A collected line is a timestamp, up to its first space, and what is behind
/// it; without a space, or with no integer before it, it is malformed.
pub proof fn law_parts_of_a_line(head: Seq<char>, rest: Seq<char>)
    requires
        !head.contains(' '),
    ensures
        collector::line_parts(head + seq![' '] + rest) == (match text::integer(head) {
            Some(nanos) => Some((nanos, rest)),
            None => None,
        }),
        collector::line_parts(head) is None,
{
    let line = head + seq![' '] + rest;
    assert forall|j: int| 0 <= j < head.len() implies line[j] != ' ' && head[j] != ' ' by {
        assert(line[j] == head[j]);
        if head[j] == ' ' {
            assert(head.contains(' '));
        }
    }
    text::lemma_first_at(line, ' ', head.len() as int);
    text::lemma_first_at(head, ' ', head.len() as int);
    assert(line.take(head.len() as int) =~= head);
    assert(line.skip(head.len() as int + 1) =~= rest);
}

/// What a collected line is about depends on its timestamp and its text alone,
/// not on how the timestamp is written.
pub proof fn law_line_counts_by_its_parts<
    V,
    S: Fn(&str) -> Option<StreamMessage<V>>,
    T: Fn(&V) -> Option<TradeData>,
    D: Fn(&V) -> Option<DepthData>,
    N: Fn(&str) -> Option<SnapshotData>,
>(line: Seq<char>, other: Seq<char>, include_snapshots: bool, d: Decoders<S, T, D, N>)
    requires
        line.len() > 0,
        other.len() > 0,
        collector::line_parts(line) == collector::line_parts(other),
    ensures
        collector::content_of(line, include_snapshots, d) == collector::content_of(
            other,
            include_snapshots,
            d,
        ),
{
}

/// The times that the conversions can hold.
pub proof fn law_times_that_fit(time: i64)
    ensures
        tardis::nanos_fit(time) == (-9223372036854775 <= time <= 9223372036854775),
        collector::micros_fit(time) == (-9223372036854775 <= time <= 9223372036854775),
        market_data::millis_fit(time) == (-9223372036854 <= time <= 9223372036854),
{
}

/// The lines of a data file are taken in turn up to the first error, and so
/// are files. A file is read by the type that its header tells, and one with an
/// unknown header is an error that names it.
pub proof fn law_data_files_in_turn<
    F,
    P: Fn(&str) -> Option<F>,
    Lo: Fn(F, F) -> F,
    Hi: Fn(F, F) -> F,
>(
    st: ConvertState<F>,
    files: Seq<TardisFileModel>,
    file: TardisFileModel,
    lines: Seq<Seq<char>>,
    line: Seq<char>,
    file_type: tardis::FileType,
    n: Numbers<F, P, Lo, Hi>,
)
    ensures
        tardis::after_lines(st, file_type, Seq::empty(), n) == Ok::<_, Seq<char>>(st),
        tardis::after_lines(st, file_type, lines.push(line), n) == (match tardis::after_lines(
            st,
            file_type,
            lines,
            n,
        ) {
            Ok(s) => tardis::after_line(s, file_type, line, n),
            Err(e) => Err(e),
        }),
        tardis::after_files(st, Seq::empty(), n) == Ok::<_, Seq<char>>(st),
        tardis::after_files(st, files.push(file), n) == (match tardis::after_files(st, files, n) {
            Ok(s) => match tardis::file_type_of(
                text::trimmed_end(text::trimmed_start(file.header)),
            ) {
                Some(found) => tardis::after_lines(s, found, file.lines, n),
                None => Err("Unknown file type for "@ + file.name),
            },
            Err(e) => Err(e),
        }),
{
    assert(lines.push(line).drop_last() =~= lines);
    assert(files.push(file).drop_last() =~= files);
}

/// A data line that is empty or holds no record changes nothing, a trade adds
/// its event, a depth record is taken as a row, and a book ticker is refused.
pub proof fn law_what_a_data_line_does<
    F,
    P: Fn(&str) -> Option<F>,
    Lo: Fn(F, F) -> F,
    Hi: Fn(F, F) -> F,
>(st: ConvertState<F>, line: Seq<char>, n: Numbers<F, P, Lo, Hi>)
    ensures
        forall|file_type: tardis::FileType| #[trigger]
            tardis::after_line(st, file_type, Seq::empty(), n) == Ok::<_, Seq<char>>(st),
        line.len() > 0 ==> tardis::after_line(st, tardis::FileType::BookTicker, line, n) == Err::<
            ConvertState<F>,
            _,
        >("Use convert_fuse for book_ticker data"@),
        line.len() > 0 ==> match tardis::trade_in(n.parse, line) {
            Some(m) => tardis::after_line(st, tardis::FileType::Trades, line, n) == Ok::<
                _,
                Seq<char>,
            >(ConvertState { events: st.events.push(tardis::trade_event(m, n.zero)), ..st }),
            None => tardis::after_line(st, tardis::FileType::Trades, line, n) == Ok::<
                _,
                Seq<char>,
            >(st),
        },
        line.len() > 0 ==> match tardis::depth_in(n.parse, line) {
            Some(m) => tardis::after_line(st, tardis::FileType::Depth, line, n) == Ok::<
                _,
                Seq<char>,
            >(tardis::with_row(st, tardis::depth_row(m), n)),
            None => tardis::after_line(st, tardis::FileType::Depth, line, n) == Ok::<
                _,
                Seq<char>,
            >(st),
        },
{
}

/// The quick conversion takes lines and files in turn, too: a trade line adds
/// its event, a depth line is taken as a row, and any other line changes
/// nothing.
pub proof fn law_quick_lines_and_files_in_turn<
    F,
    P: Fn(&str) -> Option<F>,
    Lo: Fn(F, F) -> F,
    Hi: Fn(F, F) -> F,
>(
    st: ConvertState<F>,
    files: Seq<TardisFileModel>,
    file: TardisFileModel,
    lines: Seq<Seq<char>>,
    line: Seq<char>,
    file_type: tardis_fast::FileType,
    n: Numbers<F, P, Lo, Hi>,
)
    ensures
        match tardis_fast::fast_trade(n.parse, text::trimmed_end(line), n.zero) {
            Some(event) => tardis_fast::after_fast_line(
                st,
                tardis_fast::FileType::Trades,
                line,
                n,
            ) == (ConvertState { events: st.events.push(event), ..st }),
            None => tardis_fast::after_fast_line(st, tardis_fast::FileType::Trades, line, n)
                == st,
        },
        match tardis_fast::fast_depth(n.parse, text::trimmed_end(line), n.zero) {
            Some(columns) => tardis_fast::after_fast_line(
                st,
                tardis_fast::FileType::Depth,
                line,
                n,
            ) == tardis::with_row(st, tardis_fast::fast_row(columns), n),
            None => tardis_fast::after_fast_line(st, tardis_fast::FileType::Depth, line, n) == st,
        },
        tardis_fast::after_fast_lines(st, file_type, Seq::empty(), n) == st,
        tardis_fast::after_fast_lines(st, file_type, lines.push(line), n)
            == tardis_fast::after_fast_line(
            tardis_fast::after_fast_lines(st, file_type, lines, n),
            file_type,
            line,
            n,
        ),
        tardis_fast::after_fast_files(st, Seq::empty(), n) == Ok::<_, Seq<char>>(st),
        tardis_fast::after_fast_files(st, files.push(file), n) == (
        match tardis_fast::after_fast_files(st, files, n) {
            Ok(s) => match tardis_fast::fast_type_of(file.header) {
                Some(found) => Ok(tardis_fast::after_fast_lines(s, found, file.lines, n)),
                None => Err("Unknown file type for "@ + file.name),
            },
            Err(e) => Err(e),
        }),
{
    assert(lines.push(line).drop_last() =~= lines);
    assert(files.push(file).drop_last() =~= files);
}

/// At the end of the input nothing that was put out is lost: a snapshot that is
/// still being collected comes behind it.
pub proof fn law_end_of_input<F, P: Fn(&str) -> Option<F>, Lo: Fn(F, F) -> F, Hi: Fn(F, F) -> F>(
    st: ConvertState<F>,
    n: Numbers<F, P, Lo, Hi>,
)
    ensures
        ({
            let all = tardis::at_end(st, n);
            &&& all.len() >= st.events.len()
            &&& all.take(st.events.len() as int) == st.events
            &&& !st.depth.collecting ==> all == st.events
            &&& st.depth.collecting ==> all.skip(st.events.len() as int)
                == tardis::snapshot_block(st.depth.bids, st.depth.asks, n)
        }),
{
    let all = tardis::at_end(st, n);
    assert(all.take(st.events.len() as int) =~= st.events);
    if st.depth.collecting {
        assert(all.skip(st.events.len() as int) =~= tardis::snapshot_block(
            st.depth.bids,
            st.depth.asks,
            n,
        ));
    } else {
        assert(all =~= st.events);
    }
}

/// A stable order lists every position once, by key, and equal keys by
/// position; the keys are the timestamps of the events.
pub proof fn law_what_a_stable_order_is<F>(data: Seq<Event<F>>, order: Seq<usize>)
    ensures
        validation::exch_keys(data).len() == data.len(),
        validation::local_keys(data).len() == data.len(),
        forall|i: int|
            0 <= i < data.len() ==> #[trigger] validation::exch_keys(data)[i] == data[i].exch_ts,
        forall|i: int|
            0 <= i < data.len() ==> #[trigger] validation::local_keys(data)[i]
                == data[i].local_ts,
        sort::is_stable_order(validation::exch_keys(data), order) ==> {
            &&& order.len() == data.len()
            &&& forall|i: int| 0 <= i < order.len() ==> #[trigger] order[i] < data.len()
            &&& forall|k: usize| k < data.len() ==> #[trigger] order.contains(k)
            &&& forall|i: int, j: int|
                0 <= i < j < order.len() ==> data[(#[trigger] order[i]) as int].exch_ts
                    < data[(#[trigger] order[j]) as int].exch_ts || (data[order[i] as int].exch_ts
                    == data[order[j] as int].exch_ts && order[i] < order[j])
        },
        sort::is_stable_order(validation::local_keys(data), order) ==> {
            &&& order.len() == data.len()
            &&& forall|i: int| 0 <= i < order.len() ==> #[trigger] order[i] < data.len()
            &&& forall|k: usize| k < data.len() ==> #[trigger] order.contains(k)
            &&& forall|i: int, j: int|
                0 <= i < j < order.len() ==> data[(#[trigger] order[i]) as int].local_ts
                    < data[(#[trigger] order[j]) as int].local_ts || (data[
                    order[i] as int].local_ts == data[order[j] as int].local_ts && order[i]
                    < order[j])
        },
{
    if sort::is_stable_order(validation::exch_keys(data), order) {
        assert forall|i: int, j: int| 0 <= i < j < order.len() implies data[(
        #[trigger] order[i]) as int].exch_ts < data[(#[trigger] order[j]) as int].exch_ts || (data[
        order[i] as int].exch_ts == data[order[j] as int].exch_ts && order[i] < order[j]) by {
            assert(sort::comes_before(validation::exch_keys(data), order[i], order[j]));
        }
    }
    if sort::is_stable_order(validation::local_keys(data), order) {
        assert forall|i: int, j: int| 0 <= i < j < order.len() implies data[(
        #[trigger] order[i]) as int].local_ts < data[(#[trigger] order[j]) as int].local_ts || (
        data[order[i] as int].local_ts == data[order[j] as int].local_ts && order[i]
            < order[j]) by {
            assert(sort::comes_before(validation::local_keys(data), order[i], order[j]));
        }
    }
}

/// Picked events are those of the picks, one by one, with the flags of the
/// orders that they are picked for and otherwise as they were.
pub proof fn law_picked_events<F>(data: Seq<Event<F>>, picks: Seq<Pick>)
    ensures
        validation::picked(data, picks).len() == picks.len(),
        forall|i: int|
            0 <= i < picks.len() ==> {
                let e = data[picks[i].index];
                let r = #[trigger] validation::picked(data, picks)[i];
                &&& r.exch_ts == e.exch_ts
                &&& r.local_ts == e.local_ts
                &&& r.px == e.px
                &&& r.qty == e.qty
                &&& r.order_id == e.order_id
                &&& r.ival == e.ival
                &&& r.fval == e.fval
                &&& picks[i].exch && picks[i].local ==> r.ev == e.ev | 0xC000_0000
                &&& picks[i].exch && !picks[i].local ==> r.ev == e.ev | 0x8000_0000
                &&& !picks[i].exch && picks[i].local ==> r.ev == e.ev | 0x4000_0000
                &&& !picks[i].exch && !picks[i].local ==> r.ev == e.ev
            },
{
    assert(0x8000_0000u64 | 0x4000_0000u64 == 0xC000_0000u64) by (bit_vector);
}

/// Moving an event changes its local timestamp alone, and its latency with it.
pub proof fn law_moved_event<F>(e: Event<F>, offset: int)
    requires
        i64::MIN <= e.local_ts + offset <= i64::MAX,
    ensures
        validation::shifted(e, offset).local_ts == e.local_ts + offset,
        validation::latency(validation::shifted(e, offset)) == validation::latency(e) + offset,
        validation::latency(e) == e.local_ts - e.exch_ts,
        validation::shifted(e, offset).exch_ts == e.exch_ts,
        validation::shifted(e, offset).ev == e.ev,
        validation::shifted(e, offset).px == e.px,
        validation::shifted(e, offset).qty == e.qty,
        validation::shifted(e, offset).order_id == e.order_id,
        validation::shifted(e, offset).ival == e.ival,
        validation::shifted(e, offset).fval == e.fval,
{
}

/// Every event is moved by the same amount, in its place.
pub proof fn law_all_events_are_moved_alike<F>(events: Seq<Event<F>>, base_latency: int)
    ensures
        normalize::latency_corrected(events, base_latency).len() == events.len(),
        forall|i: int|
            0 <= i < events.len() ==> #[trigger] normalize::latency_corrected(
                events,
                base_latency,
            )[i] == validation::shifted(events[i], validation::local_offset(events, base_latency)),
{
}

/// Events are in order where no event that is valid at the exchange is earlier
/// there than one before it, and none that is valid locally is earlier here.
pub proof fn law_what_valid_order_is<F>(data: Seq<Event<F>>)
    ensures
        validation::exch_in_order(data) == (forall|i: int, j: int|
            0 <= i < j < data.len() && (#[trigger] data[i]).ev & 0x8000_0000 == 0x8000_0000 && (
            #[trigger] data[j]).ev & 0x8000_0000 == 0x8000_0000 ==> data[i].exch_ts
                <= data[j].exch_ts),
        validation::local_in_order(data) == (forall|i: int, j: int|
            0 <= i < j < data.len() && (#[trigger] data[i]).ev & 0x4000_0000 == 0x4000_0000 && (
            #[trigger] data[j]).ev & 0x4000_0000 == 0x4000_0000 ==> data[i].local_ts
                <= data[j].local_ts),
{
}

/// Timestamps of the coming centuries, with a base latency of as long, are
/// always corrected within 64 bits.
pub proof fn law_ordinary_timestamps_fit<F>(data: Seq<Event<F>>, base_latency: int)
    requires
        forall|i: int|
            0 <= i < data.len() ==> 0 <= (#[trigger] data[i]).exch_ts < 0x2000_0000_0000_0000
                && 0 <= data[i].local_ts < 0x2000_0000_0000_0000,
        0 <= base_latency < 0x2000_0000_0000_0000,
    ensures
        validation::timestamps_in_range(data, base_latency),
{
    if data.len() > 0 {
        order_laws::law_least_latency(data);
    }
}

/// A conversion starts at the beginning of a day, with nothing put out and
/// nothing collected.
pub proof fn law_start_of_a_conversion<F>(mode: tardis::SnapshotMode)
    ensures
        ({
            let st = tardis::start_state::<F>(mode);
            &&& st.events.len() == 0
            &&& st.depth.bids.len() == 0
            &&& st.depth.asks.len() == 0
            &&& st.depth.start_of_day
            &&& !st.depth.collecting
            &&& st.depth.mode == mode
        }),
{
}

/// The quick conversion tells trades and depth by the columns that only one of
/// them has, wherever they stand in the header; trades go first.
pub proof fn law_quick_header(header: Seq<char>)
    ensures
        (tardis_fast::fast_type_of(header) == Some(tardis_fast::FileType::Trades)) == text::holds(
            header,
            ",id,side,"@,
        ),
        (tardis_fast::fast_type_of(header) == Some(tardis_fast::FileType::Depth)) == (
        !text::holds(header, ",id,side,"@) && text::holds(header, ",is_snapshot,side,"@)),
{
}

} // verus!
