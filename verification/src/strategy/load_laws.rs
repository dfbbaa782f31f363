//! What is loaded of a collected file for warming up, and in which order.

use vstd::prelude::*;

use crate::data::collector;
use crate::data::normalize;
use crate::data::sort;
use crate::data::tardis_fast;
use crate::data::validation;
use crate::decode;
use crate::strategy::warmup;
use crate::strategy::warmup::{
    DataFile, DataFormat, DepthUpdateData, DepthUpdateModel, LineReaders, LoadModel,
};
use crate::text;
use crate::text::LevelText;
use crate::types::{Event, BUY_EVENT};

verus! {

/// A data file ends in one of three extensions.
pub proof fn law_names_of_data_files(stem: Seq<char>)
    ensures
        warmup::is_data_name(stem + ".npz"@),
        warmup::is_data_name(stem + ".gz"@),
        warmup::is_data_name(stem + ".jsonl"@),
{
    let npz = stem + ".npz"@;
    let gz = stem + ".gz"@;
    let jsonl = stem + ".jsonl"@;
    assert(npz.subrange(npz.len() - ".npz"@.len(), npz.len() as int) =~= ".npz"@);
    assert(gz.subrange(gz.len() - ".gz"@.len(), gz.len() as int) =~= ".gz"@);
    assert(jsonl.subrange(jsonl.len() - ".jsonl"@.len(), jsonl.len() as int) =~= ".jsonl"@);
}

/// No other name is one of a data file: its last characters are those of an
/// extension.
pub proof fn law_other_names_are_no_data_files(name: Seq<char>)
    requires
        warmup::is_data_name(name),
    ensures
        ({
            let n = name.len() as int;
            ||| n >= 4 && name.skip(n - 4) == ".npz"@
            ||| n >= 3 && name.skip(n - 3) == ".gz"@
            ||| n >= 6 && name.skip(n - 6) == ".jsonl"@
        }),
{
    reveal_strlit(".npz");
    reveal_strlit(".gz");
    reveal_strlit(".jsonl");
    let n = name.len() as int;
    if text::stands_at(name, ".npz"@, n - 4) {
        assert(name.skip(n - 4) =~= name.subrange(n - 4, n));
    } else if text::stands_at(name, ".gz"@, n - 3) {
        assert(name.skip(n - 3) =~= name.subrange(n - 3, n));
    } else {
        assert(name.skip(n - 6) =~= name.subrange(n - 6, n));
    }
}

/// A file is considered exactly where it is a data file and the symbol stands
/// in its name or in that of the directory, whatever the case.
pub proof fn law_which_files_are_considered(
    name: Seq<char>,
    dir_name: Option<Seq<char>>,
    symbol: Seq<char>,
)
    ensures
        warmup::is_candidate(name, dir_name, symbol) == (warmup::is_data_name(
            text::in_lower_case(name),
        ) && (text::holds(text::in_lower_case(name), text::in_lower_case(symbol)) || (
        dir_name is Some && text::holds(
            text::in_lower_case(dir_name->0),
            text::in_lower_case(symbol),
        )))),
{
}

/// The file that is used is one of those considered, no other of them was
/// changed later, and of those changed at the same time it is the first. There
/// is no second such file.
pub proof fn law_most_recent_file(
    files: Seq<DataFile>,
    dir_name: Option<Seq<char>>,
    symbol: Seq<char>,
    i: int,
    j: int,
)
    requires
        warmup::is_most_recent(files, dir_name, symbol, i),
        0 <= j < files.len(),
        warmup::is_candidate(files[j].name@, dir_name, symbol),
    ensures
        0 <= i < files.len(),
        warmup::is_candidate(files[i].name@, dir_name, symbol),
        files[j].modified <= files[i].modified,
        files[j].modified == files[i].modified ==> i <= j,
        warmup::is_most_recent(files, dir_name, symbol, j) ==> i == j,
{
}

/// A file that is considered leaves no doubt that there is one to use.
pub proof fn law_there_is_a_most_recent_file(
    files: Seq<DataFile>,
    dir_name: Option<Seq<char>>,
    symbol: Seq<char>,
    k: int,
)
    requires
        0 <= k < files.len(),
        warmup::is_candidate(files[k].name@, dir_name, symbol),
    ensures
        exists|i: int| warmup::is_most_recent(files, dir_name, symbol, i),
    decreases files.len(),
{
    let front = files.drop_last();
    let n = files.len() - 1;
    let last_counts = warmup::is_candidate(files[n].name@, dir_name, symbol);
    if exists|m: int|
        0 <= m < front.len() && warmup::is_candidate(
            (#[trigger] front[m]).name@,
            dir_name,
            symbol,
        ) {
        let m = choose|m: int|
            0 <= m < front.len() && warmup::is_candidate(
                (#[trigger] front[m]).name@,
                dir_name,
                symbol,
            );
        law_there_is_a_most_recent_file(front, dir_name, symbol, m);
        let b = choose|b: int| warmup::is_most_recent(front, dir_name, symbol, b);
        let best = if last_counts && files[n].modified > files[b].modified {
            n
        } else {
            b
        };
        assert forall|j: int|
            0 <= j < files.len() && warmup::is_candidate(
                (#[trigger] files[j]).name@,
                dir_name,
                symbol,
            ) implies files[j].modified < files[best].modified || (files[j].modified
            == files[best].modified && best <= j) by {
            if j < n {
                assert(front[j] == files[j]);
            }
        }
        assert(front[b] == files[b]);
        assert(warmup::is_most_recent(files, dir_name, symbol, best));
    } else {
        assert forall|j: int| 0 <= j < n implies !warmup::is_candidate(
            (#[trigger] files[j]).name@,
            dir_name,
            symbol,
        ) by {
            assert(front[j] == files[j]);
        }
        assert(warmup::is_most_recent(files, dir_name, symbol, n));
    }
}

/// Each format has one extension, and no other extension is known.
pub proof fn law_formats(extension: Seq<char>)
    ensures
        (warmup::format_of(extension) == Some(DataFormat::Npz)) == (extension == "npz"@),
        (warmup::format_of(extension) == Some(DataFormat::Gz)) == (extension == "gz"@),
        (warmup::format_of(extension) == Some(DataFormat::Jsonl)) == (extension == "jsonl"@),
{
    reveal_strlit("npz");
    reveal_strlit("gz");
    reveal_strlit("jsonl");
    assert("npz"@.len() == 3);
    assert("gz"@.len() == 2);
    assert("jsonl"@.len() == 5);
}

/// The age of data is counted from the whole second of its last event.
pub proof fn law_age_of_data<F>(events: Seq<Event<F>>, now_seconds: i64)
    requires
        events.len() > 0,
        events.last().exch_ts >= 0,
    ensures
        ({
            let second = now_seconds - warmup::age_of(events, now_seconds);
            second * 1_000_000_000 <= events.last().exch_ts < (second + 1) * 1_000_000_000
        }),
{
}

/// Every level with a price above zero gives one event, in its place, with its
/// numbers and times; any other level gives none.
pub proof fn law_events_of_levels<
    F,
    D: Fn(&str) -> Option<DepthUpdateData>,
    T: Fn(&str) -> bool,
    P: Fn(&str) -> Option<F>,
    C: Fn(F) -> bool,
>(
    levels: Seq<LevelText>,
    level: LevelText,
    ev: u64,
    exch_ts: int,
    local_ts: i64,
    n: LineReaders<F, D, T, P, C>,
)
    ensures
        warmup::level_events(Seq::<LevelText>::empty(), ev, exch_ts, local_ts, n).len() == 0,
        ({
            let before = warmup::level_events(levels, ev, exch_ts, local_ts, n);
            let after = warmup::level_events(levels.push(level), ev, exch_ts, local_ts, n);
            let px = tardis_fast::number_or_zero(n.parse, level.0, n.zero);
            if decode::value_checked(n.positive, px) {
                after == before.push(
                    Event {
                        ev,
                        exch_ts: exch_ts as i64,
                        local_ts,
                        px,
                        qty: tardis_fast::number_or_zero(n.parse, level.1, n.zero),
                        order_id: 0,
                        ival: 0,
                        fval: n.zero,
                    },
                )
            } else {
                after == before
            }
        }),
{
    assert(levels.push(level).drop_last() =~= levels);
}

/// A record gives the events of its bids, then those of its asks, all at the
/// time of the record; bids carry the side, and a snapshot its own kind.
pub proof fn law_events_of_a_record<
    F,
    D: Fn(&str) -> Option<DepthUpdateData>,
    T: Fn(&str) -> bool,
    P: Fn(&str) -> Option<F>,
    C: Fn(F) -> bool,
>(m: DepthUpdateModel, local_ts: i64, n: LineReaders<F, D, T, P, C>)
    ensures
        m.event == "depthSnapshot"@ ==> warmup::record_events(m, local_ts, n)
            == warmup::level_events(m.bids, 4 | BUY_EVENT, m.event_time * 1_000_000, local_ts, n)
            + warmup::level_events(m.asks, 4, m.event_time * 1_000_000, local_ts, n),
        m.event != "depthSnapshot"@ ==> warmup::record_events(m, local_ts, n)
            == warmup::level_events(m.bids, 1 | BUY_EVENT, m.event_time * 1_000_000, local_ts, n)
            + warmup::level_events(m.asks, 1, m.event_time * 1_000_000, local_ts, n),
{
}

/// A depth record is taken as it stands.
pub proof fn law_depth_records_are_taken_whole(d: DepthUpdateData)
    ensures
        d@.event == d.event@,
        d@.event_time == d.event_time,
        d@.bids.len() == d.bids@.len(),
        forall|i: int|
            0 <= i < d.bids@.len() ==> #[trigger] d@.bids[i] == (d.bids@[i].0@, d.bids@[i].1@),
        d@.asks.len() == d.asks@.len(),
        forall|i: int|
            0 <= i < d.asks@.len() ==> #[trigger] d@.asks[i] == (d.asks@[i].0@, d.asks@[i].1@),
{
}

/// Every line is counted. One that holds a depth record adds its events behind
/// those before it, one that is neither a depth record nor a trade is an error,
/// and any other adds nothing.
pub proof fn law_what_a_line_loads<
    F,
    D: Fn(&str) -> Option<DepthUpdateData>,
    T: Fn(&str) -> bool,
    P: Fn(&str) -> Option<F>,
    C: Fn(F) -> bool,
>(st: LoadModel<F>, line: Seq<char>, n: LineReaders<F, D, T, P, C>)
    ensures
        ({
            let after = warmup::after_line(st, line, n);
            &&& after.lines == st.lines + 1
            &&& match collector::line_parts(line) {
                None => after.events == st.events && after.errors == st.errors,
                Some((local_ts, json)) => match decode::text_decoded(n.depth, json) {
                    Some(m) => {
                        &&& after.events == st.events + warmup::record_events(m, local_ts, n)
                        &&& after.errors == st.errors
                    },
                    None => {
                        &&& after.events == st.events
                        &&& decode::text_checked(n.is_trade, json) ==> after.errors == st.errors
                        &&& !decode::text_checked(n.is_trade, json) ==> after.errors == st.errors
                            + 1
                    },
                },
            }
        }),
{
}

/// Lines are loaded in turn, from nothing on.
pub proof fn law_lines_are_loaded_in_turn<
    F,
    D: Fn(&str) -> Option<DepthUpdateData>,
    T: Fn(&str) -> bool,
    P: Fn(&str) -> Option<F>,
    C: Fn(F) -> bool,
>(lines: Seq<Seq<char>>, line: Seq<char>, n: LineReaders<F, D, T, P, C>)
    ensures
        warmup::after_lines(Seq::empty(), n) == (LoadModel::<F> {
            events: Seq::empty(),
            lines: 0,
            errors: 0,
        }),
        warmup::after_lines(lines.push(line), n) == warmup::after_line(
            warmup::after_lines(lines, n),
            line,
            n,
        ),
{
    assert(lines.push(line).drop_last() =~= lines);
}

/// Sorting by exchange timestamp keeps every event, once, and events of one
/// time in the order in which they were loaded: there is a place for each
/// loaded event, no two have the same, and a later place means a later time or
/// the same time and a later line.
pub proof fn law_sorting_keeps_every_event<F>(events: Seq<Event<F>>)
    requires
        events.len() <= usize::MAX,
    ensures
        warmup::sorted_by_exch(events).len() == events.len(),
        exists|order: Seq<usize>| #[trigger] is_order_of_sorting(events, order),
{
    let keys = validation::exch_keys(events);
    sort::lemma_stable_order_exists(keys);
    let order = normalize::stable_order_of(keys);
    assert forall|k: int| 0 <= k < events.len() implies #[trigger] order.contains(
        k as usize,
    ) by {}
    assert forall|i: int, j: int| 0 <= i < j < order.len() implies sooner(
        events,
        #[trigger] order[i],
        #[trigger] order[j],
    ) by {
        assert(sort::comes_before(keys, order[i], order[j]));
    }
    assert(is_order_of_sorting(events, order));
}

/// The event at `a` is of an earlier time than the one at `b`, or of the same
/// time and before it.
pub open spec fn sooner<F>(events: Seq<Event<F>>, a: usize, b: usize) -> bool {
    ||| events[a as int].exch_ts < events[b as int].exch_ts
    ||| events[a as int].exch_ts == events[b as int].exch_ts && a < b
}

/// `order` lists every position of the events, sooner ones first, and the
/// sorted events stand in it.
pub open spec fn is_order_of_sorting<F>(events: Seq<Event<F>>, order: Seq<usize>) -> bool {
    &&& order.len() == events.len()
    &&& forall|i: int| 0 <= i < order.len() ==> #[trigger] order[i] < events.len()
    &&& forall|k: int| 0 <= k < events.len() ==> #[trigger] order.contains(k as usize)
    &&& forall|i: int, j: int|
        0 <= i < j < order.len() ==> sooner(events, #[trigger] order[i], #[trigger] order[j])
    &&& forall|i: int|
        0 <= i < order.len() ==> warmup::sorted_by_exch(events)[i] == events[(
        #[trigger] order[i]) as int]
}

/// Every event of the last seconds before the last event is replayed.
pub proof fn law_window_keeps_all_of_its_events<F>(
    events: Seq<Event<F>>,
    min_duration_seconds: i64,
    i: int,
)
    requires
        0 <= i < events.len(),
        events[i].exch_ts >= events.last().exch_ts - min_duration_seconds * 1_000_000_000,
    ensures
        warmup::last_window(events, min_duration_seconds).contains(events[i]),
{
    let start = warmup::window_start(events, min_duration_seconds);
    lemma_kept_by_filter(events, |e: Event<F>| e.exch_ts >= start, i);
}

proof fn lemma_kept_by_filter<F>(events: Seq<Event<F>>, keep: spec_fn(Event<F>) -> bool, i: int)
    requires
        0 <= i < events.len(),
        keep(events[i]),
    ensures
        events.filter(keep).contains(events[i]),
    decreases events.len(),
{
    reveal(Seq::filter);
    let front = events.drop_last();
    let kept = front.filter(keep);
    let all = events.filter(keep);
    if i < front.len() {
        lemma_kept_by_filter(front, keep, i);
        let j = choose|j: int| 0 <= j < kept.len() && kept[j] == front[i];
        assert(all[j] == kept[j]);
    } else {
        assert(all == kept.push(events.last()));
        assert(all[all.len() - 1] == events[i]);
    }
}

/// The events that are replayed are those of the last seconds, in their order
/// and each as often as it was loaded.
pub proof fn law_window_is_cut_by_time<F>(events: Seq<Event<F>>, min_duration_seconds: i64)
    ensures
        warmup::last_window(events, min_duration_seconds) == events.filter(
            |e: Event<F>|
                e.exch_ts >= events.last().exch_ts - min_duration_seconds * 1_000_000_000,
        ),
{
    let start = warmup::window_start(events, min_duration_seconds);
    assert((|e: Event<F>| e.exch_ts >= start) =~= (|e: Event<F>|
        e.exch_ts >= events.last().exch_ts - min_duration_seconds * 1_000_000_000));
}

/// The message about a file without events names its kind and how many lines
/// and errors there were.
pub proof fn law_message_about_an_empty_file(kind: Seq<char>, lines: int, errors: int)
    ensures
        warmup::no_events_message(kind, lines, errors) == "No events parsed from "@ + kind
            + " file (lines: "@ + text::int_text(lines) + ", errors: "@ + text::int_text(errors)
            + ")"@,
{
}

} // verus!
