//! Warming up from collected data: which file is used, which events are
//! loaded from it, whether they are fresh enough, and how they are replayed.

use vstd::prelude::*;

use crate::connector::market_data;
use crate::data::collector;
use crate::data::normalize;
use crate::data::sort;
use crate::data::tardis_fast;
use crate::data::validation;
use crate::decode;
use crate::numbers;
use crate::strategy::schedule;
use crate::text;
use crate::text::LevelText;
use crate::types::{Event, BUY_EVENT, DEPTH_EVENT, DEPTH_SNAPSHOT_EVENT};

verus! {

/// Result of warmup attempt.
#[derive(Debug)]
pub enum WarmupResult {
    /// Warmup succeeded with the given number of events processed.
    Success { events_processed: usize, data_age_seconds: i64 },
    /// No suitable data files found.
    NoDataFound,
    /// Data is too old.
    DataTooOld { age_seconds: i64 },
    /// Error loading data.
    Error(String),
}

/// Configuration for warmup.
#[derive(Debug)]
pub struct WarmupConfig {
    /// Directory containing data files.
    pub data_dir: String,
    /// Symbol name (lowercase, e.g., "btcusdt").
    pub symbol: String,
    /// Maximum age of data in seconds.
    pub max_age_seconds: i64,
    /// Seconds of data that are replayed.
    pub min_duration_seconds: i64,
}

impl WarmupConfig {
    /// Two hours of age and one hour of data, where nothing else is said.
    pub fn new(data_dir: &str, symbol: &str) -> (r: Self)
        ensures
            r.data_dir@ == data_dir@,
            r.symbol@ == symbol@,
            r.max_age_seconds == 7200,
            r.min_duration_seconds == 3600,
    {
        WarmupConfig {
            data_dir: data_dir.to_string(),
            symbol: symbol.to_string(),
            max_age_seconds: 2 * 3600,
            min_duration_seconds: 3600,
        }
    }

    pub fn with_max_age(self, seconds: i64) -> (r: Self)
        ensures
            r == (WarmupConfig { max_age_seconds: seconds, ..self }),
    {
        WarmupConfig {
            data_dir: self.data_dir,
            symbol: self.symbol,
            max_age_seconds: seconds,
            min_duration_seconds: self.min_duration_seconds,
        }
    }

    pub fn with_min_duration(self, seconds: i64) -> (r: Self)
        ensures
            r == (WarmupConfig { min_duration_seconds: seconds, ..self }),
    {
        WarmupConfig {
            data_dir: self.data_dir,
            symbol: self.symbol,
            max_age_seconds: self.max_age_seconds,
            min_duration_seconds: seconds,
        }
    }
}

/// A file of the data directory, with the time of its last change.
#[derive(Debug)]
pub struct DataFile {
    pub name: String,
    pub modified: i128,
}

/// The name ends in one of the extensions of data files.
pub open spec fn is_data_name(name: Seq<char>) -> bool {
    ||| text::stands_at(name, ".npz"@, name.len() - ".npz"@.len())
    ||| text::stands_at(name, ".gz"@, name.len() - ".gz"@.len())
    ||| text::stands_at(name, ".jsonl"@, name.len() - ".jsonl"@.len())
}

/// The name of the directory holds the symbol, upper and lower case alike.
pub open spec fn dir_matches(dir_name: Option<Seq<char>>, symbol: Seq<char>) -> bool {
    dir_name is Some && text::holds(text::in_lower_case(dir_name->0), text::in_lower_case(symbol))
}

/// The file can be used: it is a data file, and its name or that of the
/// directory holds the symbol, upper and lower case alike.
pub open spec fn is_candidate(
    name: Seq<char>,
    dir_name: Option<Seq<char>>,
    symbol: Seq<char>,
) -> bool {
    &&& text::holds(text::in_lower_case(name), text::in_lower_case(symbol)) || dir_matches(
        dir_name,
        symbol,
    )
    &&& is_data_name(text::in_lower_case(name))
}

/// The file at `i` is the candidate that was changed last, the first of equals.
pub open spec fn is_most_recent(
    files: Seq<DataFile>,
    dir_name: Option<Seq<char>>,
    symbol: Seq<char>,
    i: int,
) -> bool {
    &&& 0 <= i < files.len()
    &&& is_candidate(files[i].name@, dir_name, symbol)
    &&& forall|j: int|
        0 <= j < files.len() && is_candidate((#[trigger] files[j]).name@, dir_name, symbol)
            ==> files[j].modified < files[i].modified || (files[j].modified == files[i].modified
            && i <= j)
}

/// What an optional text says.
pub open spec fn opt_text(t: Option<&str>) -> Option<Seq<char>> {
    match t {
        Some(s) => Some(s@),
        None => None,
    }
}

/// Find the most recent data file for the configured symbol.
pub fn find_recent_data_file(
    config: &WarmupConfig,
    dir_name: Option<&str>,
    files: &Vec<DataFile>,
) -> (r: Option<usize>)
    ensures
        match r {
            Some(i) => is_most_recent(files@, opt_text(dir_name), config.symbol@, i as int),
            None => forall|j: int|
                0 <= j < files@.len() ==> !is_candidate(
                    (#[trigger] files@[j]).name@,
                    opt_text(dir_name),
                    config.symbol@,
                ),
        },
{
    let pattern = text::to_lower(config.symbol.as_str());
    let dir_contains_symbol: bool = match dir_name {
        Some(name) => {
            let lower = text::to_lower(name);
            text::contains_text(lower.as_str(), pattern.as_str())
        },
        None => false,
    };
    let ghost dir = opt_text(dir_name);
    let mut best: Option<usize> = None;
    let mut i: usize = 0;
    while i < files.len()
        invariant
            i <= files@.len(),
            dir == opt_text(dir_name),
            pattern@ == text::in_lower_case(config.symbol@),
            dir_contains_symbol == dir_matches(dir, config.symbol@),
            match best {
                Some(b) => {
                    &&& b < i
                    &&& is_candidate(files@[b as int].name@, dir, config.symbol@)
                    &&& forall|j: int|
                        0 <= j < i && is_candidate(
                            (#[trigger] files@[j]).name@,
                            dir,
                            config.symbol@,
                        ) ==> files@[j].modified < files@[b as int].modified || (files@[j].modified
                            == files@[b as int].modified && b <= j)
                },
                None => forall|j: int|
                    0 <= j < i ==> !is_candidate(
                        (#[trigger] files@[j]).name@,
                        dir,
                        config.symbol@,
                    ),
            },
        decreases files@.len() - i,
    {
        let name = text::to_lower(files[i].name.as_str());
        let matches_symbol: bool = text::contains_text(name.as_str(), pattern.as_str())
            || dir_contains_symbol;
        let matches_format: bool = text::ends_with(name.as_str(), ".npz") || text::ends_with(
            name.as_str(),
            ".gz",
        ) || text::ends_with(name.as_str(), ".jsonl");
        if matches_symbol && matches_format {
            let newer: bool = match best {
                Some(b) => files[i].modified > files[b].modified,
                None => true,
            };
            if newer {
                best = Some(i);
            }
        }
        i += 1;
    }
    best
}

/// The file name has the extension `npz`.
pub open spec fn is_npz_name(name: Seq<char>) -> bool {
    name.len() > ".npz"@.len() && text::stands_at(name, ".npz"@, name.len() - ".npz"@.len())
}

/// Find the most recent data file for the configured symbol, where it is an
/// npz file.
pub fn find_recent_npz_file(
    config: &WarmupConfig,
    dir_name: Option<&str>,
    files: &Vec<DataFile>,
) -> (r: Option<usize>)
    ensures
        match r {
            Some(i) => is_most_recent(files@, opt_text(dir_name), config.symbol@, i as int)
                && is_npz_name(files@[i as int].name@),
            None => forall|j: int|
                is_most_recent(files@, opt_text(dir_name), config.symbol@, j) ==> !is_npz_name(
                    (#[trigger] files@[j]).name@,
                ),
        },
{
    proof {
        reveal_strlit(".npz");
    }
    match find_recent_data_file(config, dir_name, files) {
        Some(i) => {
            let name = files[i].name.as_str();
            if text::ends_with(name, ".npz") && text::chars_of(name).len() > 4 {
                Some(i)
            } else {
                None
            }
        },
        None => None,
    }
}

/// Format of a data file.
#[derive(Debug, Clone, Copy, PartialEq, Eq, Structural)]
pub enum DataFormat {
    Npz,
    Gz,
    Jsonl,
}

/// The format of an extension.
pub open spec fn format_of(extension: Seq<char>) -> Option<DataFormat> {
    if extension == "npz"@ {
        Some(DataFormat::Npz)
    } else if extension == "gz"@ {
        Some(DataFormat::Gz)
    } else if extension == "jsonl"@ {
        Some(DataFormat::Jsonl)
    } else {
        None
    }
}

/// Chooses how a file with this extension is loaded.
pub fn choose_format(extension: &str) -> (r: Result<DataFormat, String>)
    ensures
        match r {
            Ok(format) => format_of(extension@) == Some(format),
            Err(message) => format_of(extension@) is None && message@
                == "Unsupported file format: "@ + extension@,
        },
{
    if text::same_text(extension, "npz") {
        Ok(DataFormat::Npz)
    } else if text::same_text(extension, "gz") {
        Ok(DataFormat::Gz)
    } else if text::same_text(extension, "jsonl") {
        Ok(DataFormat::Jsonl)
    } else {
        let mut message = "Unsupported file format: ".to_string();
        message.append(extension);
        Err(message)
    }
}

/// Seconds since the last event, whole towards zero.
pub open spec fn age_of<F>(events: Seq<Event<F>>, now_seconds: i64) -> int {
    now_seconds - schedule::quotient(events.last().exch_ts as int, 1_000_000_000)
}

/// Check if the data is fresh enough: the age in seconds, as an error where
/// it is above the limit or there is no event.
pub fn check_data_freshness<F: Copy>(
    events: &[Event<F>],
    max_age_seconds: i64,
    now_seconds: i64,
) -> (r: Result<i64, i64>)
    requires
        events@.len() > 0 ==> i64::MIN <= age_of(events@, now_seconds) <= i64::MAX,
    ensures
        events@.len() == 0 ==> r == Err::<i64, i64>(i64::MAX),
        events@.len() > 0 && age_of(events@, now_seconds) <= max_age_seconds ==> r == Ok::<
            i64,
            i64,
        >(age_of(events@, now_seconds) as i64),
        events@.len() > 0 && age_of(events@, now_seconds) > max_age_seconds ==> r == Err::<
            i64,
            i64,
        >(age_of(events@, now_seconds) as i64),
{
    if events.len() == 0 {
        return Err(i64::MAX);
    }
    let last_event_ts: i64 = events[events.len() - 1].exch_ts;
    let age_seconds: i64 = now_seconds - schedule::divide(last_event_ts, 1_000_000_000);
    if age_seconds > max_age_seconds {
        Err(age_seconds)
    } else {
        Ok(age_seconds)
    }
}

/// Get the data duration in seconds.
pub fn get_data_duration<F: Copy>(events: &[Event<F>]) -> (r: i64)
    requires
        events@.len() >= 2 ==> i64::MIN <= events@.last().exch_ts - events@[0].exch_ts <= i64::MAX,
    ensures
        r == (if events@.len() < 2 {
            0
        } else {
            schedule::quotient(events@.last().exch_ts - events@[0].exch_ts, 1_000_000_000)
        }),
{
    if events.len() < 2 {
        return 0;
    }
    let first_ts: i64 = events[0].exch_ts;
    let last_ts: i64 = events[events.len() - 1].exch_ts;
    schedule::divide(last_ts - first_ts, 1_000_000_000)
}

/// The timestamp from which on events are replayed.
pub open spec fn window_start<F>(events: Seq<Event<F>>, min_duration_seconds: i64) -> int {
    events.last().exch_ts - min_duration_seconds * 1_000_000_000
}

/// The events of the last seconds before the last event.
pub open spec fn last_window<F>(events: Seq<Event<F>>, min_duration_seconds: i64) -> Seq<Event<F>> {
    let start = window_start(events, min_duration_seconds);
    events.filter(|e: Event<F>| e.exch_ts >= start)
}

/// All numbers that the choice of the last events computes are 64-bit numbers.
pub open spec fn window_fits<F>(events: Seq<Event<F>>, min_duration_seconds: i64) -> bool {
    &&& i64::MIN <= events.last().exch_ts - events[0].exch_ts <= i64::MAX
    &&& i64::MIN <= min_duration_seconds * 1_000_000_000 <= i64::MAX
    &&& i64::MIN <= window_start(events, min_duration_seconds) <= i64::MAX
}

/// Tells whether all numbers that the choice of the last events computes are
/// 64-bit numbers.
pub fn fits_window<F: Copy>(events: &[Event<F>], min_duration_seconds: i64) -> (r: bool)
    requires
        events@.len() > 0,
    ensures
        r == window_fits(events@, min_duration_seconds),
{
    let first: i128 = events[0].exch_ts as i128;
    let last: i128 = events[events.len() - 1].exch_ts as i128;
    let span: i128 = min_duration_seconds as i128 * 1_000_000_000;
    let low: i128 = -9223372036854775808;
    let high: i128 = 9223372036854775807;
    low <= last - first && last - first <= high && low <= span && span <= high && low <= last
        - span && last - span <= high
}

/// Keeps the events of the last seconds before the last event.
fn keep_last<F: Copy>(events: &Vec<Event<F>>, min_duration_seconds: i64) -> (r: Vec<Event<F>>)
    requires
        events@.len() > 0,
        window_fits(events@, min_duration_seconds),
    ensures
        r@ == last_window(events@, min_duration_seconds),
{
    let last_ts: i64 = events[events.len() - 1].exch_ts;
    let start: i64 = last_ts - (min_duration_seconds * 1_000_000_000);
    let ghost keep = |e: Event<F>| e.exch_ts >= window_start(events@, min_duration_seconds);
    let mut r: Vec<Event<F>> = Vec::new();
    let mut i: usize = 0;
    proof {
        reveal(Seq::filter);
        assert(events@.take(0) =~= Seq::empty());
    }
    while i < events.len()
        invariant
            i <= events@.len(),
            start == window_start(events@, min_duration_seconds),
            keep == (|e: Event<F>| e.exch_ts >= window_start(events@, min_duration_seconds)),
            r@ == events@.take(i as int).filter(keep),
        decreases events@.len() - i,
    {
        proof {
            reveal(Seq::filter);
            assert(events@.take(i as int + 1).drop_last() =~= events@.take(i as int));
        }
        if events[i].exch_ts >= start {
            r.push(events[i]);
        }
        i += 1;
    }
    assert(events@.take(i as int) =~= events@);
    r
}

/// Chooses the events of a converted file that are replayed.
pub fn load_warmup_events_npz<F: Copy>(data: &Vec<Event<F>>, min_duration_seconds: i64) -> (r: Result<
    Vec<Event<F>>,
    String,
>)
    requires
        data@.len() > 0 ==> window_fits(data@, min_duration_seconds),
    ensures
        match r {
            Ok(events) => data@.len() > 0 && events@ == last_window(data@, min_duration_seconds),
            Err(message) => data@.len() == 0 && message@ == "Empty npz file"@,
        },
{
    if data.len() == 0 {
        return Err("Empty npz file".to_string());
    }
    Ok(keep_last(data, min_duration_seconds))
}

/// A depth record of a collected file.
#[derive(Debug)]
pub struct DepthUpdateData {
    /// `depthUpdate` or `depthSnapshot`.
    pub event: String,
    /// Event time in milliseconds.
    pub event_time: i64,
    pub bids: Vec<(String, String)>,
    pub asks: Vec<(String, String)>,
}

/// What a depth record says.
pub struct DepthUpdateModel {
    pub event: Seq<char>,
    pub event_time: i64,
    pub bids: Seq<LevelText>,
    pub asks: Seq<LevelText>,
}

impl View for DepthUpdateData {
    type V = DepthUpdateModel;

    open spec fn view(&self) -> DepthUpdateModel {
        DepthUpdateModel {
            event: self.event@,
            event_time: self.event_time,
            bids: text::levels_view(self.bids@),
            asks: text::levels_view(self.asks@),
        }
    }
}

/// How the lines of a collected file are read.
pub struct LineReaders<F, D, T, P, C> {
    /// Decodes a depth record.
    pub depth: D,
    /// Tells whether a text is a trade record.
    pub is_trade: T,
    /// Reads a number.
    pub parse: P,
    /// Tells whether a number is above zero.
    pub positive: C,
    pub zero: F,
}

/// All readers are defined everywhere and depend on their input alone.
pub open spec fn readers_ok<
    F,
    D: Fn(&str) -> Option<DepthUpdateData>,
    T: Fn(&str) -> bool,
    P: Fn(&str) -> Option<F>,
    C: Fn(F) -> bool,
>(n: LineReaders<F, D, T, P, C>) -> bool {
    &&& decode::decodes_text(n.depth)
    &&& decode::checks_text(n.is_trade)
    &&& numbers::reads_text(n.parse)
    &&& decode::checks_value::<F, C>(n.positive)
}

/// The events of levels with a price above zero; a text that is no number
/// stands for zero.
pub open spec fn level_events<
    F,
    D: Fn(&str) -> Option<DepthUpdateData>,
    T: Fn(&str) -> bool,
    P: Fn(&str) -> Option<F>,
    C: Fn(F) -> bool,
>(
    levels: Seq<LevelText>,
    ev: u64,
    exch_ts: int,
    local_ts: i64,
    n: LineReaders<F, D, T, P, C>,
) -> Seq<Event<F>>
    decreases levels.len(),
{
    if levels.len() == 0 {
        Seq::empty()
    } else {
        let front = level_events(levels.drop_last(), ev, exch_ts, local_ts, n);
        let px = tardis_fast::number_or_zero(n.parse, levels.last().0, n.zero);
        let qty = tardis_fast::number_or_zero(n.parse, levels.last().1, n.zero);
        if decode::value_checked(n.positive, px) {
            front.push(
                Event {
                    ev,
                    exch_ts: exch_ts as i64,
                    local_ts,
                    px,
                    qty,
                    order_id: 0,
                    ival: 0,
                    fval: n.zero,
                },
            )
        } else {
            front
        }
    }
}

/// The events of a depth record: bids, then asks, which carry no side flag.
pub open spec fn record_events<
    F,
    D: Fn(&str) -> Option<DepthUpdateData>,
    T: Fn(&str) -> bool,
    P: Fn(&str) -> Option<F>,
    C: Fn(F) -> bool,
>(m: DepthUpdateModel, local_ts: i64, n: LineReaders<F, D, T, P, C>) -> Seq<Event<F>> {
    let kind = if m.event == "depthSnapshot"@ {
        DEPTH_SNAPSHOT_EVENT
    } else {
        DEPTH_EVENT
    };
    level_events(m.bids, kind | BUY_EVENT, m.event_time * 1_000_000, local_ts, n) + level_events(
        m.asks,
        kind,
        m.event_time * 1_000_000,
        local_ts,
        n,
    )
}

/// What has been loaded so far.
#[verifier::ext_equal]
pub struct LoadModel<F> {
    pub events: Seq<Event<F>>,
    pub lines: int,
    pub errors: int,
}

/// What has been loaded after a line. Lines without a timestamp and trades
/// are passed over, other texts that are no depth record count as errors.
pub open spec fn after_line<
    F,
    D: Fn(&str) -> Option<DepthUpdateData>,
    T: Fn(&str) -> bool,
    P: Fn(&str) -> Option<F>,
    C: Fn(F) -> bool,
>(st: LoadModel<F>, line: Seq<char>, n: LineReaders<F, D, T, P, C>) -> LoadModel<F> {
    let counted = LoadModel { lines: st.lines + 1, ..st };
    match collector::line_parts(line) {
        None => counted,
        Some((local_ts, json)) => match decode::text_decoded(n.depth, json) {
            Some(m) => LoadModel { events: st.events + record_events(m, local_ts, n), ..counted },
            None => if decode::text_checked(n.is_trade, json) {
                counted
            } else {
                LoadModel { errors: st.errors + 1, ..counted }
            },
        },
    }
}

/// The time of a line's record is a 64-bit number of nanoseconds.
pub open spec fn line_fits<
    F,
    D: Fn(&str) -> Option<DepthUpdateData>,
    T: Fn(&str) -> bool,
    P: Fn(&str) -> Option<F>,
    C: Fn(F) -> bool,
>(line: Seq<char>, n: LineReaders<F, D, T, P, C>) -> bool {
    match collector::line_parts(line) {
        None => true,
        Some((_, json)) => match decode::text_decoded(n.depth, json) {
            Some(m) => market_data::millis_fit(m.event_time),
            None => true,
        },
    }
}

/// Loads the lines of a collected file.
pub struct Loader<F> {
    events: Vec<Event<F>>,
    line_count: usize,
    parse_errors: usize,
}

impl<F> View for Loader<F> {
    type V = LoadModel<F>;

    closed spec fn view(&self) -> LoadModel<F> {
        LoadModel {
            events: self.events@,
            lines: self.line_count as int,
            errors: self.parse_errors as int,
        }
    }
}

fn push_level_events<
    F: Copy,
    D: Fn(&str) -> Option<DepthUpdateData>,
    T: Fn(&str) -> bool,
    P: Fn(&str) -> Option<F>,
    C: Fn(F) -> bool,
>(
    out: &mut Vec<Event<F>>,
    levels: &Vec<(String, String)>,
    ev: u64,
    exch_ts: i64,
    local_ts: i64,
    n: &LineReaders<F, D, T, P, C>,
)
    requires
        readers_ok(*n),
    ensures
        final(out)@ == old(out)@ + level_events(
            text::levels_view(levels@),
            ev,
            exch_ts as int,
            local_ts,
            *n,
        ),
{
    let ghost start = out@;
    let ghost all = text::levels_view(levels@);
    let mut i: usize = 0;
    assert(all.take(0) =~= Seq::empty());
    assert(start + Seq::<Event<F>>::empty() =~= start);
    while i < levels.len()
        invariant
            readers_ok(*n),
            all == text::levels_view(levels@),
            i <= levels@.len(),
            out@ == start + level_events(all.take(i as int), ev, exch_ts as int, local_ts, *n),
        decreases levels@.len() - i,
    {
        let ghost before = out@;
        assert(all.take(i as int + 1).drop_last() =~= all.take(i as int));
        assert(all[i as int] == (levels@[i as int].0@, levels@[i as int].1@));
        let px = match numbers::read_number(&n.parse, levels[i].0.as_str()) {
            Some(v) => v,
            None => n.zero,
        };
        let qty = match numbers::read_number(&n.parse, levels[i].1.as_str()) {
            Some(v) => v,
            None => n.zero,
        };
        if decode::check_value(&n.positive, px) {
            let event = Event {
                ev,
                exch_ts,
                local_ts,
                px,
                qty,
                order_id: 0,
                ival: 0,
                fval: n.zero,
            };
            out.push(event);
            assert(out@ =~= start + level_events(
                all.take(i as int + 1),
                ev,
                exch_ts as int,
                local_ts,
                *n,
            ));
        }
        i += 1;
    }
    assert(all.take(i as int) =~= all);
}

/// The events in the stable order of their exchange timestamps.
pub open spec fn sorted_by_exch<F>(events: Seq<Event<F>>) -> Seq<Event<F>> {
    let order = normalize::stable_order_of(validation::exch_keys(events));
    Seq::new(events.len(), |i: int| events[order[i] as int])
}

/// Sorts events by exchange timestamp; equal ones stay in order.
pub fn sort_by_exch<F: Copy>(events: &Vec<Event<F>>) -> (r: Vec<Event<F>>)
    ensures
        r@ == sorted_by_exch(events@),
{
    let order = validation::argsort_by_exch_ts(events.as_slice());
    proof {
        normalize::lemma_stable_order_of(validation::exch_keys(events@), order@);
    }
    let mut r: Vec<Event<F>> = Vec::new();
    let mut i: usize = 0;
    while i < order.len()
        invariant
            sort::is_stable_order(validation::exch_keys(events@), order@),
            order@ == normalize::stable_order_of(validation::exch_keys(events@)),
            i <= order@.len(),
            r@ == sorted_by_exch(events@).take(i as int),
        decreases order@.len() - i,
    {
        assert(order@[i as int] < events@.len());
        r.push(events[order[i]]);
        i += 1;
        assert(r@ =~= sorted_by_exch(events@).take(i as int));
    }
    assert(r@ =~= sorted_by_exch(events@));
    r
}

/// The message for a collected file without events.
pub open spec fn no_events_message(kind: Seq<char>, lines: int, errors: int) -> Seq<char> {
    "No events parsed from "@ + kind + " file (lines: "@ + text::int_text(lines) + ", errors: "@
        + text::int_text(errors) + ")"@
}

impl<F: Copy> Loader<F> {
    pub fn new() -> (r: Self)
        ensures
            r@ == (LoadModel { events: Seq::<Event<F>>::empty(), lines: 0, errors: 0 }),
    {
        Loader { events: Vec::new(), line_count: 0, parse_errors: 0 }
    }

    /// Tells whether the time of a line's record is a 64-bit number of nanoseconds.
    pub fn line_fits<
        D: Fn(&str) -> Option<DepthUpdateData>,
        T: Fn(&str) -> bool,
        P: Fn(&str) -> Option<F>,
        C: Fn(F) -> bool,
    >(&self, line: &str, readers: &LineReaders<F, D, T, P, C>) -> (r: bool)
        requires
            readers_ok(*readers),
        ensures
            r == line_fits(line@, *readers),
    {
        match collector::parse_line(line) {
            None => true,
            Some((_, json)) => match decode::decode_text(&readers.depth, json) {
                Some(m) => market_data::fits_nanos(m.event_time),
                None => true,
            },
        }
    }

    /// Takes the next line of a collected file.
    pub fn push_line<
        D: Fn(&str) -> Option<DepthUpdateData>,
        T: Fn(&str) -> bool,
        P: Fn(&str) -> Option<F>,
        C: Fn(F) -> bool,
    >(&mut self, line: &str, readers: &LineReaders<F, D, T, P, C>)
        requires
            readers_ok(*readers),
            line_fits(line@, *readers),
            old(self)@.lines < usize::MAX,
            old(self)@.errors < usize::MAX,
        ensures
            final(self)@ == after_line(old(self)@, line@, *readers),
    {
        let ghost before = self@;
        self.line_count = self.line_count + 1;
        let (local_ts, json): (i64, &str) = match collector::parse_line(line) {
            Some(parts) => parts,
            None => return,
        };
        match decode::decode_text(&readers.depth, json) {
            Some(depth) => {
                let exch_ts: i64 = depth.event_time * 1_000_000;
                let kind: u64 = if text::same_text(depth.event.as_str(), "depthSnapshot") {
                    DEPTH_SNAPSHOT_EVENT
                } else {
                    DEPTH_EVENT
                };
                push_level_events(
                    &mut self.events,
                    &depth.bids,
                    kind | BUY_EVENT,
                    exch_ts,
                    local_ts,
                    readers,
                );
                push_level_events(
                    &mut self.events,
                    &depth.asks,
                    kind,
                    exch_ts,
                    local_ts,
                    readers,
                );
                assert(self.events@ =~= before.events + record_events(depth@, local_ts, *readers));
            },
            None => {
                if !decode::check_text(&readers.is_trade, json) {
                    self.parse_errors = self.parse_errors + 1;
                }
            },
        }
    }

    /// The events in order of their exchange timestamps.
    pub fn sorted(&self) -> (r: Vec<Event<F>>)
        ensures
            r@ == sorted_by_exch(self@.events),
    {
        sort_by_exch(&self.events)
    }

    /// Chooses the events that are replayed: those of the last seconds, by
    /// exchange timestamp. `kind` names the kind of file in the message.
    pub fn finish(&self, kind: &str, min_duration_seconds: i64) -> (r: Result<Vec<Event<F>>, String>)
        requires
            self@.events.len() > 0 ==> window_fits(
                sorted_by_exch(self@.events),
                min_duration_seconds,
            ),
        ensures
            loads(self@, kind@, min_duration_seconds, r),
            r is Ok == (self@.events.len() > 0),
            r is Ok ==> r->Ok_0@ == last_window(
                sorted_by_exch(self@.events),
                min_duration_seconds,
            ),
            r is Err ==> r->Err_0@ == no_events_message(kind@, self@.lines, self@.errors),
    {
        if self.events.len() == 0 {
            let mut message = "No events parsed from ".to_string();
            message.append(kind);
            message.append(" file (lines: ");
            text::append_u64(&mut message, self.line_count as u64);
            message.append(", errors: ");
            text::append_u64(&mut message, self.parse_errors as u64);
            message.append(")");
            return Err(message);
        }
        let sorted = sort_by_exch(&self.events);
        Ok(keep_last(&sorted, min_duration_seconds))
    }
}

/// What has been loaded after some lines.
pub open spec fn after_lines<
    F,
    D: Fn(&str) -> Option<DepthUpdateData>,
    T: Fn(&str) -> bool,
    P: Fn(&str) -> Option<F>,
    C: Fn(F) -> bool,
>(lines: Seq<Seq<char>>, n: LineReaders<F, D, T, P, C>) -> LoadModel<F>
    decreases lines.len(),
{
    if lines.len() == 0 {
        LoadModel { events: Seq::empty(), lines: 0, errors: 0 }
    } else {
        after_line(after_lines(lines.drop_last(), n), lines.last(), n)
    }
}

/// What a file with these lines gives: the events of its last seconds, by
/// exchange timestamp, or a message where there is none.
pub open spec fn loads<F>(
    loaded: LoadModel<F>,
    kind: Seq<char>,
    min_duration_seconds: i64,
    r: Result<Vec<Event<F>>, String>,
) -> bool {
    match r {
        Ok(events) => loaded.events.len() > 0 && events@ == last_window(
            sorted_by_exch(loaded.events),
            min_duration_seconds,
        ),
        Err(message) => loaded.events.len() == 0 && message@ == no_events_message(
            kind,
            loaded.lines,
            loaded.errors,
        ),
    }
}

/// All numbers that loading these lines computes are 64-bit numbers.
pub open spec fn lines_fit<
    F,
    D: Fn(&str) -> Option<DepthUpdateData>,
    T: Fn(&str) -> bool,
    P: Fn(&str) -> Option<F>,
    C: Fn(F) -> bool,
>(lines: Seq<Seq<char>>, n: LineReaders<F, D, T, P, C>, min_duration_seconds: i64) -> bool {
    &&& forall|i: int| 0 <= i < lines.len() ==> line_fits(#[trigger] lines[i], n)
    &&& after_lines(lines, n).events.len() > 0 ==> window_fits(
        sorted_by_exch(after_lines(lines, n).events),
        min_duration_seconds,
    )
}

fn load_lines<
    F: Copy,
    D: Fn(&str) -> Option<DepthUpdateData>,
    T: Fn(&str) -> bool,
    P: Fn(&str) -> Option<F>,
    C: Fn(F) -> bool,
>(
    kind: &str,
    lines: &Vec<String>,
    min_duration_seconds: i64,
    readers: &LineReaders<F, D, T, P, C>,
) -> (r: Result<Vec<Event<F>>, String>)
    requires
        readers_ok(*readers),
        lines_fit(text::strings(lines@), *readers, min_duration_seconds),
    ensures
        loads(after_lines(text::strings(lines@), *readers), kind@, min_duration_seconds, r),
{
    let ghost all = text::strings(lines@);
    let mut loader: Loader<F> = Loader::new();
    let mut i: usize = 0;
    assert(all.take(0) =~= Seq::empty());
    while i < lines.len()
        invariant
            readers_ok(*readers),
            all == text::strings(lines@),
            forall|j: int| 0 <= j < all.len() ==> line_fits(#[trigger] all[j], *readers),
            i <= lines@.len(),
            loader@ == after_lines(all.take(i as int), *readers),
            loader@.lines == i,
            0 <= loader@.errors <= i,
        decreases lines@.len() - i,
    {
        assert(all.take(i as int + 1).drop_last() =~= all.take(i as int));
        assert(all[i as int] == lines@[i as int]@);
        loader.push_line(lines[i].as_str(), readers);
        i += 1;
    }
    assert(all.take(i as int) =~= all);
    loader.finish(kind, min_duration_seconds)
}

/// Load events from the lines of a compressed collected file.
pub fn load_warmup_events_gz<
    F: Copy,
    D: Fn(&str) -> Option<DepthUpdateData>,
    T: Fn(&str) -> bool,
    P: Fn(&str) -> Option<F>,
    C: Fn(F) -> bool,
>(lines: &Vec<String>, min_duration_seconds: i64, readers: &LineReaders<F, D, T, P, C>) -> (r:
    Result<Vec<Event<F>>, String>)
    requires
        readers_ok(*readers),
        lines_fit(text::strings(lines@), *readers, min_duration_seconds),
    ensures
        loads(after_lines(text::strings(lines@), *readers), "gz"@, min_duration_seconds, r),
        ({
            let loaded = after_lines(text::strings(lines@), *readers);
            &&& r is Ok == (loaded.events.len() > 0)
            &&& r is Ok ==> r->Ok_0@ == last_window(
                sorted_by_exch(loaded.events),
                min_duration_seconds,
            )
            &&& r is Err ==> r->Err_0@ == no_events_message("gz"@, loaded.lines, loaded.errors)
        }),
{
    load_lines("gz", lines, min_duration_seconds, readers)
}

/// Load events from the lines of a collected file that may still be written.
pub fn load_warmup_events_jsonl<
    F: Copy,
    D: Fn(&str) -> Option<DepthUpdateData>,
    T: Fn(&str) -> bool,
    P: Fn(&str) -> Option<F>,
    C: Fn(F) -> bool,
>(lines: &Vec<String>, min_duration_seconds: i64, readers: &LineReaders<F, D, T, P, C>) -> (r:
    Result<Vec<Event<F>>, String>)
    requires
        readers_ok(*readers),
        lines_fit(text::strings(lines@), *readers, min_duration_seconds),
    ensures
        loads(after_lines(text::strings(lines@), *readers), "jsonl"@, min_duration_seconds, r),
        ({
            let loaded = after_lines(text::strings(lines@), *readers);
            &&& r is Ok == (loaded.events.len() > 0)
            &&& r is Ok ==> r->Ok_0@ == last_window(
                sorted_by_exch(loaded.events),
                min_duration_seconds,
            )
            &&& r is Err ==> r->Err_0@ == no_events_message("jsonl"@, loaded.lines, loaded.errors)
        }),
{
    load_lines("jsonl", lines, min_duration_seconds, readers)
}

/// What is done with loaded events.
#[derive(Debug)]
pub enum Assessment {
    /// They are replayed; this is their age in seconds.
    Replay { age_seconds: i64 },
    /// Warmup ends.
    Stop(WarmupResult),
}

/// Decides what is done with what was loaded: an error ends the warmup, and
/// so does the lack of events or of fresh ones.
pub fn assess<F: Copy>(
    loaded: &Result<Vec<Event<F>>, String>,
    max_age_seconds: i64,
    now_seconds: i64,
) -> (r: Assessment)
    requires
        loaded matches Ok(events) ==> events@.len() > 0 ==> i64::MIN <= age_of(
            events@,
            now_seconds,
        ) <= i64::MAX,
    ensures
        match *loaded {
            Err(message) => r is Stop && r->Stop_0 is Error && r->Stop_0->Error_0@ == message@,
            Ok(events) => if events@.len() == 0 {
                r is Stop && r->Stop_0 is NoDataFound
            } else if age_of(events@, now_seconds) > max_age_seconds {
                r is Stop && r->Stop_0 is DataTooOld && r->Stop_0->age_seconds == age_of(
                    events@,
                    now_seconds,
                )
            } else {
                r is Replay && r->Replay_age_seconds == age_of(events@, now_seconds)
            },
        },
{
    match loaded {
        Err(message) => Assessment::Stop(WarmupResult::Error(message.clone())),
        Ok(events) => {
            if events.len() == 0 {
                return Assessment::Stop(WarmupResult::NoDataFound);
            }
            match check_data_freshness(events.as_slice(), max_age_seconds, now_seconds) {
                Ok(age_seconds) => Assessment::Replay { age_seconds },
                Err(age_seconds) => Assessment::Stop(WarmupResult::DataTooOld { age_seconds }),
            }
        },
    }
}

/// The side of the book that an event changes: true for bids.
pub fn depth_side(ev: u64) -> (r: Option<bool>)
    ensures
        r == (if ev & 0xFF == DEPTH_EVENT || ev & 0xFF == DEPTH_SNAPSHOT_EVENT {
            Some(ev & BUY_EVENT != 0)
        } else {
            None
        }),
{
    let kind: u64 = ev & 0xFF;
    if kind == DEPTH_EVENT || kind == DEPTH_SNAPSHOT_EVENT {
        Some((ev & BUY_EVENT) != 0)
    } else {
        None
    }
}

/// What is updated on an event of the replay.
#[derive(Debug, Clone, Copy, PartialEq, Eq, Structural)]
pub enum ReplayStep {
    /// Nothing: the update period has not changed.
    Skip,
    /// The imbalance, and the volatility too where the flag is set.
    Update { volatility: bool },
}

/// Progress of a replay: periods of the last updates, -1 where there was
/// none, and the number of events that led to an update.
#[derive(Debug)]
pub struct Replay {
    last_update_period: i64,
    last_change_period: i64,
    processed: usize,
}

/// What a replay holds.
pub struct ReplayModel {
    pub last_update: i64,
    pub last_change: i64,
    pub processed: int,
}

impl View for Replay {
    type V = ReplayModel;

    closed spec fn view(&self) -> ReplayModel {
        ReplayModel {
            last_update: self.last_update_period,
            last_change: self.last_change_period,
            processed: self.processed as int,
        }
    }
}

/// Progress and step after an event with a valid market.
pub open spec fn replayed(s: ReplayModel, period: int) -> (ReplayModel, ReplayStep) {
    if period <= s.last_update {
        (s, ReplayStep::Skip)
    } else {
        let change = schedule::change_period_of(period);
        (
            ReplayModel {
                last_update: period as i64,
                last_change: if change > s.last_change {
                    change as i64
                } else {
                    s.last_change
                },
                processed: s.processed + 1,
            },
            ReplayStep::Update { volatility: change > s.last_change },
        )
    }
}

impl Replay {
    pub fn new() -> (r: Self)
        ensures
            r@ == (ReplayModel {
                last_update: (-1i64) as i64,
                last_change: (-1i64) as i64,
                processed: 0,
            }),
    {
        Replay { last_update_period: -1, last_change_period: -1, processed: 0 }
    }

    /// Takes the exchange timestamp of an event after which bids and asks are there.
    pub fn advance(&mut self, exch_ts: i64, interval_ns: i64) -> (r: ReplayStep)
        requires
            interval_ns != 0,
            !(exch_ts == i64::MIN && interval_ns == -1),
            old(self)@.processed < usize::MAX,
        ensures
            (final(self)@, r) == replayed(old(self)@, schedule::period_of(exch_ts, interval_ns)),
    {
        let period: i64 = schedule::divide(exch_ts, interval_ns);
        if period <= self.last_update_period {
            return ReplayStep::Skip;
        }
        self.last_update_period = period;
        let change_period: i64 = schedule::divide(period, 6);
        let volatility: bool = change_period > self.last_change_period;
        if volatility {
            self.last_change_period = change_period;
        }
        self.processed = self.processed + 1;
        ReplayStep::Update { volatility }
    }

    /// How many events led to an update.
    pub fn processed(&self) -> (r: usize)
        ensures
            r == self@.processed,
    {
        self.processed
    }
}

/// Every event that is replayed is of the last seconds before the last one,
/// and the last event is always among them.
pub proof fn law_window_is_recent<F>(events: Seq<Event<F>>, min_duration_seconds: i64)
    requires
        events.len() > 0,
        min_duration_seconds >= 0,
    ensures
        ({
            let kept = last_window(events, min_duration_seconds);
            &&& kept.contains(events.last())
            &&& forall|i: int|
                0 <= i < kept.len() ==> (#[trigger] kept[i]).exch_ts >= events.last().exch_ts
                    - min_duration_seconds * 1_000_000_000 && events.contains(kept[i])
        }),
{
    let start = window_start(events, min_duration_seconds);
    let keep = |e: Event<F>| e.exch_ts >= start;
    let kept = last_window(events, min_duration_seconds);
    reveal(Seq::filter);
    assert(keep(events.last()));
    assert(kept == events.drop_last().filter(keep).push(events.last()));
    assert(kept[kept.len() - 1] == events.last());
    assert forall|i: int| 0 <= i < kept.len() implies (#[trigger] kept[i]).exch_ts >= start
        && events.contains(kept[i]) by {
        lemma_filter_element(events, keep, i);
    }
}

proof fn lemma_filter_element<F>(events: Seq<Event<F>>, keep: spec_fn(Event<F>) -> bool, i: int)
    requires
        0 <= i < events.filter(keep).len(),
    ensures
        keep(events.filter(keep)[i]),
        events.contains(events.filter(keep)[i]),
    decreases events.len(),
{
    reveal(Seq::filter);
    if events.len() > 0 {
        let front = events.drop_last();
        if i < front.filter(keep).len() {
            lemma_filter_element(front, keep, i);
            let e = front.filter(keep)[i];
            assert(events.filter(keep)[i] == e);
            let j = choose|j: int| 0 <= j < front.len() && front[j] == e;
            assert(events[j] == e);
        } else {
            assert(events.filter(keep)[i] == events.last());
            assert(events[events.len() - 1] == events.last());
        }
    }
}

/// The events of a collected file are replayed in order of time, whatever the
/// order of its lines.
pub proof fn law_replay_goes_forward<F>(events: Seq<Event<F>>, min_duration_seconds: i64)
    requires
        events.len() <= usize::MAX,
    ensures
        ({
            let kept = last_window(sorted_by_exch(events), min_duration_seconds);
            forall|i: int, j: int|
                0 <= i < j < kept.len() ==> (#[trigger] kept[i]).exch_ts <= (
                #[trigger] kept[j]).exch_ts
        }),
{
    let keys = validation::exch_keys(events);
    let sorted = sorted_by_exch(events);
    sort::lemma_stable_order_exists(keys);
    let order = normalize::stable_order_of(keys);
    assert forall|i: int, j: int| 0 <= i < j < sorted.len() implies (
    #[trigger] sorted[i]).exch_ts <= (#[trigger] sorted[j]).exch_ts by {
        assert(sort::comes_before(keys, order[i], order[j]));
    }
    let start = window_start(sorted, min_duration_seconds);
    lemma_filter_keeps_order(sorted, |e: Event<F>| e.exch_ts >= start);
}

proof fn lemma_filter_keeps_order<F>(events: Seq<Event<F>>, keep: spec_fn(Event<F>) -> bool)
    requires
        forall|i: int, j: int|
            0 <= i < j < events.len() ==> (#[trigger] events[i]).exch_ts <= (
            #[trigger] events[j]).exch_ts,
    ensures
        forall|i: int, j: int|
            0 <= i < j < events.filter(keep).len() ==> (#[trigger] events.filter(keep)[i]).exch_ts
                <= (#[trigger] events.filter(keep)[j]).exch_ts,
    decreases events.len(),
{
    reveal(Seq::filter);
    if events.len() > 0 {
        let front = events.drop_last();
        let all = events.filter(keep);
        assert forall|i: int, j: int| 0 <= i < j < front.len() implies (
        #[trigger] front[i]).exch_ts <= (#[trigger] front[j]).exch_ts by {
            assert(events[i].exch_ts <= events[j].exch_ts);
        }
        lemma_filter_keeps_order(front, keep);
        assert forall|i: int, j: int| 0 <= i < j < all.len() implies (#[trigger] all[i]).exch_ts
            <= (#[trigger] all[j]).exch_ts by {
            let kept = front.filter(keep);
            if j < kept.len() {
                assert(kept[i].exch_ts <= kept[j].exch_ts);
            } else {
                assert(i < kept.len());
                lemma_filter_element(front, keep, i);
                let k = choose|k: int| 0 <= k < front.len() && front[k] == kept[i];
                assert(events[k].exch_ts <= events[events.len() - 1].exch_ts);
            }
        }
    }
}

} // verus!
