//! What the conversion of data files guarantees.

use vstd::prelude::*;

use crate::data::normalize;
use crate::data::order_laws;
use crate::data::sort;
use crate::data::tardis;
use crate::data::tardis::{
    ConvertState, FileType, SnapshotMode, TardisFileModel,
};
use crate::data::tardis_fast;
use crate::data::validation;
use crate::numbers;
use crate::numbers::Numbers;
use crate::text;
use crate::text_laws;
use crate::types;
use crate::types::{Event, BUY_EVENT, DEPTH_EVENT, SELL_EVENT, TRADE_EVENT};

verus! {

/// Events without flags come out of the last stage in a valid order.
pub proof fn law_normalized_events_are_valid<F>(events: Seq<Event<F>>, base_latency: int)
    requires
        normalize::all_plain(events),
        events.len() <= usize::MAX,
    ensures
        validation::exch_in_order(normalize::normalized(events, base_latency)),
        validation::local_in_order(normalize::normalized(events, base_latency)),
{
    let moved = normalize::latency_corrected(events, base_latency);
    let by_exch = sort::lemma_stable_order_exists(validation::exch_keys(moved));
    let by_local = sort::lemma_stable_order_exists(validation::local_keys(moved));
    assert forall|i: int| 0 <= i < moved.len() implies !types::is_exch(#[trigger] moved[i])
        && !types::is_local(moved[i]) by {
        assert(normalize::plain(events[i]));
    }
    order_laws::law_corrected_order_is_valid(
        moved,
        normalize::stable_order_of(validation::exch_keys(moved)),
        normalize::stable_order_of(validation::local_keys(moved)),
    );
}

proof fn lemma_lines_keep_plain<
    F,
    P: Fn(&str) -> Option<F>,
    Lo: Fn(F, F) -> F,
    Hi: Fn(F, F) -> F,
>(st: ConvertState<F>, file_type: FileType, lines: Seq<Seq<char>>, n: Numbers<F, P, Lo, Hi>)
    requires
        st.is_plain(),
    ensures
        match tardis::after_lines(st, file_type, lines, n) {
            Ok(s) => s.is_plain(),
            Err(_) => true,
        },
    decreases lines.len(),
{
    if lines.len() > 0 {
        lemma_lines_keep_plain(st, file_type, lines.drop_last(), n);
        if let Ok(s) = tardis::after_lines(st, file_type, lines.drop_last(), n) {
            tardis::lemma_line_keeps_plain(s, file_type, lines.last(), n);
        }
    }
}

/// Whatever files are converted, the events have no flags before the last
/// stage, so that the order of the converted data is always valid.
pub proof fn law_converted_files_are_valid<
    F,
    P: Fn(&str) -> Option<F>,
    Lo: Fn(F, F) -> F,
    Hi: Fn(F, F) -> F,
>(
    mode: SnapshotMode,
    files: Seq<TardisFileModel>,
    base_latency: int,
    n: Numbers<F, P, Lo, Hi>,
)
    ensures
        match tardis::after_files(tardis::start_state(mode), files, n) {
            Ok(s) => {
                let events = tardis::at_end(s, n);
                &&& s.is_plain()
                &&& normalize::all_plain(events)
                &&& events.len() <= usize::MAX ==> validation::exch_in_order(
                    normalize::normalized(events, base_latency),
                ) && validation::local_in_order(normalize::normalized(events, base_latency))
            },
            Err(_) => true,
        },
    decreases files.len(),
{
    let start = tardis::start_state(mode);
    if files.len() > 0 {
        law_converted_files_are_valid(mode, files.drop_last(), base_latency, n);
        if let Ok(s) = tardis::after_files(start, files.drop_last(), n) {
            if let Some(file_type) = tardis::header_type(files.last().header) {
                lemma_lines_keep_plain(s, file_type, files.last().lines, n);
            }
        }
    }
    if let Ok(s) = tardis::after_files(start, files, n) {
        tardis::lemma_end_is_plain(s, n);
        if tardis::at_end(s, n).len() <= usize::MAX {
            law_normalized_events_are_valid(tardis::at_end(s, n), base_latency);
        }
    }
}

/// The event is a trade or a regular depth update.
pub open spec fn trade_or_update<F>(e: Event<F>) -> bool {
    ||| e.ev == TRADE_EVENT | 0
    ||| e.ev == TRADE_EVENT | BUY_EVENT
    ||| e.ev == TRADE_EVENT | SELL_EVENT
    ||| e.ev == DEPTH_EVENT | 0
    ||| e.ev == DEPTH_EVENT | BUY_EVENT
    ||| e.ev == DEPTH_EVENT | SELL_EVENT
}

/// Nothing of a snapshot is in the converter or in its events.
pub open spec fn no_snapshots<F>(st: ConvertState<F>) -> bool {
    &&& st.depth.mode == SnapshotMode::Ignore
    &&& !st.depth.collecting
    &&& forall|i: int| 0 <= i < st.events.len() ==> trade_or_update(#[trigger] st.events[i])
}

proof fn lemma_lines_without_snapshots<
    F,
    P: Fn(&str) -> Option<F>,
    Lo: Fn(F, F) -> F,
    Hi: Fn(F, F) -> F,
>(st: ConvertState<F>, file_type: FileType, lines: Seq<Seq<char>>, n: Numbers<F, P, Lo, Hi>)
    requires
        no_snapshots(st),
    ensures
        match tardis::after_lines(st, file_type, lines, n) {
            Ok(s) => no_snapshots(s),
            Err(_) => true,
        },
    decreases lines.len(),
{
    if lines.len() > 0 {
        lemma_lines_without_snapshots(st, file_type, lines.drop_last(), n);
    }
}

/// With snapshots ignored, converted files hold trades and regular depth
/// updates only.
pub proof fn law_ignored_snapshots_leave_no_trace<
    F,
    P: Fn(&str) -> Option<F>,
    Lo: Fn(F, F) -> F,
    Hi: Fn(F, F) -> F,
>(files: Seq<TardisFileModel>, n: Numbers<F, P, Lo, Hi>)
    ensures
        match tardis::after_files(tardis::start_state(SnapshotMode::Ignore), files, n) {
            Ok(s) => no_snapshots(s) && tardis::at_end(s, n) == s.events,
            Err(_) => true,
        },
    decreases files.len(),
{
    let start = tardis::start_state(SnapshotMode::Ignore);
    if files.len() > 0 {
        law_ignored_snapshots_leave_no_trace(files.drop_last(), n);
        if let Ok(s) = tardis::after_files(start, files.drop_last(), n) {
            if let Some(file_type) = tardis::header_type(files.last().header) {
                lemma_lines_without_snapshots(s, file_type, files.last().lines, n);
            }
        }
    }
}

proof fn lemma_digits_are_lenient(s: Seq<char>)
    requires
        text::all_digits(s),
    ensures
        tardis_fast::lenient_value(s) == text::digits_value(s),
    decreases s.len(),
{
    if s.len() > 0 {
        assert(text::digit(s[s.len() - 1]) is Some);
        assert(text::all_digits(s.drop_last()));
        lemma_digits_are_lenient(s.drop_last());
    }
}

/// A time column written as plain digits that fit in 64 bits.
pub open spec fn is_time(s: Seq<char>) -> bool {
    s.len() > 0 && text::all_digits(s) && text::digits_value(s) <= i64::MAX
}

proof fn lemma_time(s: Seq<char>)
    requires
        is_time(s),
    ensures
        text::integer(s) == Some(tardis_fast::lenient_value(s) as i64),
{
    lemma_digits_are_lenient(s);
    assert(text::digit(s[0]) is Some);
    lemma_digits_nonneg(s);
}

proof fn lemma_digits_nonneg(s: Seq<char>)
    requires
        text::all_digits(s),
    ensures
        0 <= text::digits_value(s),
    decreases s.len(),
{
    if s.len() > 0 {
        assert(text::digit(s[s.len() - 1]) is Some);
        assert(text::all_digits(s.drop_last()));
        lemma_digits_nonneg(s.drop_last());
    }
}

/// A well-formed row: eight columns at least, times in plain digits, and
/// numbers for price and amount.
pub open spec fn well_formed_row<F, P: Fn(&str) -> Option<F>>(parse: P, line: Seq<char>) -> bool {
    let fields = text::split(line, ',');
    &&& fields.len() >= 8
    &&& is_time(fields[2])
    &&& is_time(fields[3])
    &&& numbers::number_in(parse, fields[6]) is Some
    &&& numbers::number_in(parse, fields[7]) is Some
}

/// On well-formed trade rows with a known side the optimized parser gives the
/// event that the strict one gives.
pub proof fn law_fast_trades_agree<F, P: Fn(&str) -> Option<F>>(
    parse: P,
    line: Seq<char>,
    zero: F,
)
    requires
        well_formed_row(parse, line),
        text::split(line, ',')[5] == "buy"@ || text::split(line, ',')[5] == "sell"@,
    ensures
        tardis::trade_in(parse, line) is Some,
        tardis_fast::fast_trade(parse, line, zero) == Some(
            tardis::trade_event(tardis::trade_in(parse, line)->0, zero),
        ),
{
    let fields = text::split(line, ',');
    lemma_time(fields[2]);
    lemma_time(fields[3]);
    reveal_strlit("buy");
    reveal_strlit("sell");
    assert("buy"@[0] == 'b');
    assert("sell"@[0] == 's');
}

/// On well-formed depth rows with a known side the optimized parser gives the
/// row that the strict one gives.
pub proof fn law_fast_depth_agrees<F, P: Fn(&str) -> Option<F>>(
    parse: P,
    line: Seq<char>,
    zero: F,
)
    requires
        well_formed_row(parse, line),
        ({
            let side = text::split(line, ',')[5];
            side == "bid"@ || side == "buy"@ || side == "ask"@ || side == "sell"@
        }),
    ensures
        tardis::depth_in(parse, line) is Some,
        tardis_fast::fast_depth(parse, line, zero) is Some,
        tardis_fast::fast_row(tardis_fast::fast_depth(parse, line, zero)->0) == tardis::depth_row(
            tardis::depth_in(parse, line)->0,
        ),
{
    let fields = text::split(line, ',');
    lemma_time(fields[2]);
    lemma_time(fields[3]);
    reveal_strlit("bid");
    reveal_strlit("buy");
    reveal_strlit("ask");
    reveal_strlit("sell");
    assert("bid"@[0] == 'b');
    assert("buy"@[0] == 'b');
    assert("ask"@[0] == 'a');
    assert("sell"@[0] == 's');
}

/// A header that the strict detection takes for trades the optimized one takes
/// for trades too; one taken for depth it takes for depth unless the columns
/// of a trade file stand in it as well.
pub proof fn law_fast_header_agrees(header: Seq<char>)
    ensures
        tardis::file_type_of(header) == Some(FileType::Trades)
            ==> tardis_fast::fast_type_of(header) == Some(tardis_fast::FileType::Trades),
        tardis::file_type_of(header) == Some(FileType::Depth) && !text::holds(header, ",id,side,"@)
            ==> tardis_fast::fast_type_of(header) == Some(tardis_fast::FileType::Depth),
{
    reveal_strlit(",id,side,");
    reveal_strlit(",is_snapshot,side,");
    reveal_strlit("id");
    reveal_strlit("side");
    reveal_strlit("is_snapshot");
    let fields = text::split(header, ',');
    if fields.len() >= 8 {
        text_laws::lemma_middle_parts(header, ',', 4);
        if fields[4] == "id"@ && fields[5] == "side"@ {
            assert(seq![','] + fields[4] + seq![','] + fields[5] + seq![','] =~= ",id,side,"@);
        }
        if fields[4] == "is_snapshot"@ && fields[5] == "side"@ {
            assert(seq![','] + fields[4] + seq![','] + fields[5] + seq![',']
                =~= ",is_snapshot,side,"@);
        }
    }
}

/// Both converters take a header for the same type of file, or for none.
pub open spec fn headers_agree(header: Seq<char>) -> bool {
    match tardis::header_type(header) {
        Some(FileType::Trades) => tardis_fast::fast_type_of(header) == Some(
            tardis_fast::FileType::Trades,
        ),
        Some(FileType::Depth) => tardis_fast::fast_type_of(header) == Some(
            tardis_fast::FileType::Depth,
        ),
        Some(FileType::BookTicker) => false,
        None => tardis_fast::fast_type_of(header) is None,
    }
}

/// A line of a file: empty, or a well-formed row with a known side and no
/// white space at its end.
pub open spec fn well_formed_line<F, P: Fn(&str) -> Option<F>>(
    parse: P,
    file_type: FileType,
    line: Seq<char>,
) -> bool {
    let side = text::split(line, ',')[5];
    ||| line.len() == 0
    ||| {
        &&& text::trimmed_end(line) == line
        &&& well_formed_row(parse, line)
        &&& side == "buy"@ || side == "sell"@ || (file_type == FileType::Depth && (side == "bid"@
            || side == "ask"@))
    }
}

/// Every header agrees, and every line of a file with a known header is well formed.
pub open spec fn well_formed_files<F, P: Fn(&str) -> Option<F>>(
    parse: P,
    files: Seq<TardisFileModel>,
) -> bool {
    forall|i: int| 0 <= i < files.len() ==> well_formed_file(parse, #[trigger] files[i])
}

/// The header agrees, and where it is known every line is well formed.
pub open spec fn well_formed_file<F, P: Fn(&str) -> Option<F>>(
    parse: P,
    file: TardisFileModel,
) -> bool {
    &&& headers_agree(file.header)
    &&& match tardis::header_type(file.header) {
        Some(file_type) => forall|j: int|
            0 <= j < file.lines.len() ==> well_formed_line(
                parse,
                file_type,
                #[trigger] file.lines[j],
            ),
        None => true,
    }
}

/// The optimized converter's name of a file type.
spec fn fast_type(file_type: FileType) -> tardis_fast::FileType {
    match file_type {
        FileType::Trades => tardis_fast::FileType::Trades,
        _ => tardis_fast::FileType::Depth,
    }
}

proof fn lemma_fast_line_agrees<
    F,
    P: Fn(&str) -> Option<F>,
    Lo: Fn(F, F) -> F,
    Hi: Fn(F, F) -> F,
>(st: ConvertState<F>, file_type: FileType, line: Seq<char>, n: Numbers<F, P, Lo, Hi>)
    requires
        file_type != FileType::BookTicker,
        well_formed_line(n.parse, file_type, line),
    ensures
        tardis::after_line(st, file_type, line, n) == Ok::<ConvertState<F>, Seq<char>>(
            tardis_fast::after_fast_line(st, fast_type(file_type), line, n),
        ),
{
    if line.len() == 0 {
        assert(text::trimmed_end(line) =~= line);
        assert(text::split(line, ',').len() == 1);
    } else if file_type == FileType::Trades {
        law_fast_trades_agree(n.parse, line, n.zero);
    } else {
        law_fast_depth_agrees(n.parse, line, n.zero);
    }
}

proof fn lemma_fast_lines_agree<
    F,
    P: Fn(&str) -> Option<F>,
    Lo: Fn(F, F) -> F,
    Hi: Fn(F, F) -> F,
>(st: ConvertState<F>, file_type: FileType, lines: Seq<Seq<char>>, n: Numbers<F, P, Lo, Hi>)
    requires
        file_type != FileType::BookTicker,
        forall|j: int|
            0 <= j < lines.len() ==> well_formed_line(n.parse, file_type, #[trigger] lines[j]),
    ensures
        tardis::after_lines(st, file_type, lines, n) == Ok::<ConvertState<F>, Seq<char>>(
            tardis_fast::after_fast_lines(st, fast_type(file_type), lines, n),
        ),
    decreases lines.len(),
{
    if lines.len() > 0 {
        let before = lines.drop_last();
        assert forall|j: int| 0 <= j < before.len() implies well_formed_line(
            n.parse,
            file_type,
            #[trigger] before[j],
        ) by {
            assert(before[j] == lines[j]);
        }
        lemma_fast_lines_agree(st, file_type, before, n);
        lemma_fast_line_agrees(
            tardis_fast::after_fast_lines(st, fast_type(file_type), before, n),
            file_type,
            lines[lines.len() - 1],
            n,
        );
    }
}

/// On well-formed files the optimized converter comes to the same state as the
/// strict one, or to the same error, so that both give the same events.
pub proof fn law_fast_files_agree<
    F,
    P: Fn(&str) -> Option<F>,
    Lo: Fn(F, F) -> F,
    Hi: Fn(F, F) -> F,
>(st: ConvertState<F>, files: Seq<TardisFileModel>, n: Numbers<F, P, Lo, Hi>)
    requires
        well_formed_files(n.parse, files),
    ensures
        tardis_fast::after_fast_files(st, files, n) == tardis::after_files(st, files, n),
    decreases files.len(),
{
    if files.len() > 0 {
        let before = files.drop_last();
        assert forall|i: int| 0 <= i < before.len() implies well_formed_file(
            n.parse,
            #[trigger] before[i],
        ) by {
            assert(before[i] == files[i]);
        }
        law_fast_files_agree(st, before, n);
        let file = files[files.len() - 1];
        assert(well_formed_file(n.parse, file));
        if let Ok(s) = tardis::after_files(st, before, n) {
            if let Some(file_type) = tardis::header_type(file.header) {
                lemma_fast_lines_agree(s, file_type, file.lines, n);
            }
        }
    }
}

} // verus!
