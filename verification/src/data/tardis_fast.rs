//! Optimized Tardis.dev data converter.
//!
//! Reads events straight from the columns of a line, with lenient number
//! parsing and without intermediate records.

use vstd::prelude::*;

use crate::data::normalize;
use crate::data::tardis;
use crate::data::tardis::{
    ConvertState, DepthConverter, DepthRow, DepthState, SnapshotMode, TardisConvertConfig,
    TardisFile, TardisFileModel,
};
use crate::data::validation;
use crate::numbers;
use crate::numbers::Numbers;
use crate::text;
use crate::types::{Event, BUY_EVENT, SELL_EVENT, TRADE_EVENT};

verus! {

/// Detected file type based on header.
#[derive(Debug, Clone, Copy, PartialEq, Eq, Structural)]
pub enum FileType {
    Trades,
    Depth,
}

/// The file type that a header line names.
pub open spec fn fast_type_of(header: Seq<char>) -> Option<FileType> {
    if text::holds(header, ",id,side,"@) {
        Some(FileType::Trades)
    } else if text::holds(header, ",is_snapshot,side,"@) {
        Some(FileType::Depth)
    } else {
        None
    }
}

/// Detects file type from header line.
pub fn detect_file_type_fast(header: &str) -> (r: Option<FileType>)
    ensures
        r == fast_type_of(header@),
{
    if text::contains_text(header, ",id,side,") {
        Some(FileType::Trades)
    } else if text::contains_text(header, ",is_snapshot,side,") {
        Some(FileType::Depth)
    } else {
        None
    }
}

/// The number that the digits of a text stand for; other characters are passed over.
pub open spec fn lenient_value(s: Seq<char>) -> int
    decreases s.len(),
{
    if s.len() == 0 {
        0
    } else if text::digit(s.last()) is Some {
        lenient_value(s.drop_last()) * 10 + text::digit(s.last())->0
    } else {
        lenient_value(s.drop_last())
    }
}

proof fn lemma_lenient_value_grows(s: Seq<char>, i: int)
    requires
        0 <= i <= s.len(),
    ensures
        0 <= lenient_value(s.take(i)) <= lenient_value(s),
    decreases s.len() - i,
{
    lemma_lenient_value_nonneg(s.take(i));
    if i < s.len() {
        lemma_lenient_value_grows(s, i + 1);
        assert(s.take(i + 1).drop_last() =~= s.take(i));
    } else {
        assert(s.take(i) =~= s);
    }
}

proof fn lemma_lenient_value_nonneg(s: Seq<char>)
    ensures
        0 <= lenient_value(s),
    decreases s.len(),
{
    if s.len() > 0 {
        lemma_lenient_value_nonneg(s.drop_last());
    }
}

/// Fast integer parsing: takes the digits and passes over everything else.
pub fn parse_i64_fast(s: &str) -> (r: i64)
    requires
        lenient_value(s@) <= i64::MAX,
    ensures
        r == lenient_value(s@),
{
    let mut result: i64 = 0;
    let chars = text::chars_of(s);
    let mut i: usize = 0;
    assert(s@.take(0) =~= Seq::empty());
    while i < chars.len()
        invariant
            chars@ == s@,
            i <= chars@.len(),
            lenient_value(s@) <= i64::MAX,
            result == lenient_value(s@.take(i as int)),
        decreases chars@.len() - i,
    {
        let c = chars[i];
        proof {
            lemma_lenient_value_grows(s@, i as int);
            lemma_lenient_value_grows(s@, i as int + 1);
            assert(s@.take(i as int + 1).drop_last() =~= s@.take(i as int));
        }
        if '0' <= c && c <= '9' {
            result = result * 10 + (c as i64 - '0' as i64);
        }
        i += 1;
    }
    assert(s@.take(i as int) =~= s@);
    result
}

/// Tells whether the digits of a text stand for a 64-bit number.
pub fn digits_fit(s: &str) -> (r: bool)
    ensures
        r == (lenient_value(s@) <= i64::MAX),
{
    let mut result: i64 = 0;
    let chars = text::chars_of(s);
    let mut i: usize = 0;
    assert(s@.take(0) =~= Seq::empty());
    while i < chars.len()
        invariant
            chars@ == s@,
            i <= chars@.len(),
            0 <= result,
            result == lenient_value(s@.take(i as int)),
        decreases chars@.len() - i,
    {
        let c = chars[i];
        proof {
            lemma_lenient_value_grows(s@, i as int + 1);
            assert(s@.take(i as int + 1).drop_last() =~= s@.take(i as int));
        }
        if '0' <= c && c <= '9' {
            let next: i128 = result as i128 * 10 + (c as i128 - '0' as i128);
            if next > 9223372036854775807 {
                return false;
            }
            result = next as i64;
        }
        i += 1;
    }
    assert(s@.take(i as int) =~= s@);
    true
}

/// The number in a text, zero where there is none.
pub open spec fn number_or_zero<F, P: Fn(&str) -> Option<F>>(
    parse: P,
    s: Seq<char>,
    zero: F,
) -> F {
    match numbers::number_in(parse, s) {
        Some(v) => v,
        None => zero,
    }
}

/// Lenient number parsing: zero where the text is no number.
fn parse_number_fast<F: Copy, P: Fn(&str) -> Option<F>>(parse: &P, s: &str, zero: F) -> (r: F)
    requires
        numbers::reads_text(*parse),
    ensures
        r == number_or_zero(*parse, s@, zero),
{
    match numbers::read_number(parse, s) {
        Some(v) => v,
        None => zero,
    }
}

/// The side flag of a trade by the first letter of its side.
pub open spec fn fast_trade_side(side: Seq<char>) -> u64 {
    if side[0] == 'b' {
        BUY_EVENT
    } else if side[0] == 's' {
        SELL_EVENT
    } else {
        0
    }
}

/// The event that a trade line stands for: eight columns at least, and a side.
pub open spec fn fast_trade<F, P: Fn(&str) -> Option<F>>(
    parse: P,
    line: Seq<char>,
    zero: F,
) -> Option<Event<F>> {
    let fields = text::split(line, ',');
    if fields.len() < 8 || fields[5].len() == 0 {
        None
    } else {
        Some(
            tardis::row_event(
                TRADE_EVENT | fast_trade_side(fields[5]),
                lenient_value(fields[2]) as i64,
                lenient_value(fields[3]) as i64,
                number_or_zero(parse, fields[6], zero),
                number_or_zero(parse, fields[7], zero),
                zero,
            ),
        )
    }
}

/// The two timestamps of a line, where it has them, are 64-bit numbers.
pub open spec fn columns_fit(line: Seq<char>) -> bool {
    let fields = text::split(line, ',');
    &&& fields.len() > 2 ==> lenient_value(fields[2]) <= i64::MAX
    &&& fields.len() > 3 ==> lenient_value(fields[3]) <= i64::MAX
}

/// The two timestamps of a line are 64-bit numbers of nanoseconds.
pub open spec fn column_nanos_fit(line: Seq<char>) -> bool {
    let fields = text::split(line, ',');
    &&& tardis::nanos_fit(lenient_value(fields[2]) as i64)
    &&& tardis::nanos_fit(lenient_value(fields[3]) as i64)
}

/// Parses a trade line directly into an event.
pub fn parse_trade_to_event<F: Copy, P: Fn(&str) -> Option<F>>(
    line: &str,
    parse: &P,
    zero: F,
) -> (r: Option<Event<F>>)
    requires
        numbers::reads_text(*parse),
        columns_fit(line@),
        fast_trade(*parse, line@, zero) is Some ==> column_nanos_fit(line@),
    ensures
        r == fast_trade(*parse, line@, zero),
{
    // exchange,symbol,timestamp,local_timestamp,id,side,price,amount
    let fields = text::split_on(line, ',');
    let ghost parts = text::split(line@, ',');
    assert(parts == text::texts(fields@));
    if fields.len() < 8 {
        return None;
    }
    assert forall|i: int| 0 <= i < fields@.len() implies #[trigger] fields@[i]@ == parts[i] by {}
    let timestamp: i64 = parse_i64_fast(fields[2]);
    let local_timestamp: i64 = parse_i64_fast(fields[3]);
    let side = text::chars_of(fields[5]);
    if side.len() == 0 {
        return None;
    }
    let side_flag: u64 = if side[0] == 'b' {
        BUY_EVENT
    } else if side[0] == 's' {
        SELL_EVENT
    } else {
        0
    };
    let price = parse_number_fast(parse, fields[6], zero);
    let amount = parse_number_fast(parse, fields[7], zero);
    Some(
        Event {
            ev: TRADE_EVENT | side_flag,
            exch_ts: timestamp * 1000,
            local_ts: local_timestamp * 1000,
            px: price,
            qty: amount,
            order_id: 0,
            ival: 0,
            fval: zero,
        },
    )
}

/// The columns of a depth line: timestamp, local timestamp, whether it
/// belongs to a snapshot and to the bids, price and amount.
pub open spec fn fast_depth<F, P: Fn(&str) -> Option<F>>(
    parse: P,
    line: Seq<char>,
    zero: F,
) -> Option<(i64, i64, bool, bool, F, F)> {
    let fields = text::split(line, ',');
    if fields.len() < 8 {
        None
    } else {
        Some(
            (
                lenient_value(fields[2]) as i64,
                lenient_value(fields[3]) as i64,
                fields[4] == "true"@,
                fields[5].len() > 0 && fields[5][0] == 'b',
                number_or_zero(parse, fields[6], zero),
                number_or_zero(parse, fields[7], zero),
            ),
        )
    }
}

/// Parses a depth line, returning parsed fields.
pub fn parse_depth_line<F: Copy, P: Fn(&str) -> Option<F>>(
    line: &str,
    parse: &P,
    zero: F,
) -> (r: Option<(i64, i64, bool, bool, F, F)>)
    requires
        numbers::reads_text(*parse),
        columns_fit(line@),
    ensures
        r == fast_depth(*parse, line@, zero),
{
    // exchange,symbol,timestamp,local_timestamp,is_snapshot,side,price,amount
    let fields = text::split_on(line, ',');
    let ghost parts = text::split(line@, ',');
    assert(parts == text::texts(fields@));
    if fields.len() < 8 {
        return None;
    }
    assert forall|i: int| 0 <= i < fields@.len() implies #[trigger] fields@[i]@ == parts[i] by {}
    let timestamp: i64 = parse_i64_fast(fields[2]);
    let local_timestamp: i64 = parse_i64_fast(fields[3]);
    let is_snapshot: bool = text::same_text(fields[4], "true");
    let side = text::chars_of(fields[5]);
    let is_bid: bool = side.len() > 0 && side[0] == 'b';
    let price = parse_number_fast(parse, fields[6], zero);
    let amount = parse_number_fast(parse, fields[7], zero);
    Some((timestamp, local_timestamp, is_snapshot, is_bid, price, amount))
}

/// Depth converter state for rows that are bids or asks.
pub struct DepthConverterFast<F> {
    inner: DepthConverter<F>,
}

impl<F> View for DepthConverterFast<F> {
    type V = DepthState<F>;

    closed spec fn view(&self) -> DepthState<F> {
        self.inner@
    }
}

/// The row that the columns of a depth line stand for: all but bids are asks.
pub open spec fn fast_row<F>(columns: (i64, i64, bool, bool, F, F)) -> DepthRow<F> {
    DepthRow {
        is_snapshot: columns.2,
        is_bid: columns.3,
        side: if columns.3 {
            BUY_EVENT
        } else {
            SELL_EVENT
        },
        timestamp: columns.0,
        local_timestamp: columns.1,
        px: columns.4,
        qty: columns.5,
    }
}

impl<F: Copy> DepthConverterFast<F> {
    pub fn new(ss_buffer_size: usize, snapshot_mode: SnapshotMode) -> (r: Self)
        ensures
            r@ == tardis::start_state::<F>(snapshot_mode).depth,
    {
        DepthConverterFast { inner: DepthConverter::new(ss_buffer_size, snapshot_mode) }
    }

    /// Processes the columns of a depth line.
    pub fn process<P: Fn(&str) -> Option<F>, Lo: Fn(F, F) -> F, Hi: Fn(F, F) -> F>(
        &mut self,
        timestamp: i64,
        local_timestamp: i64,
        is_snapshot: bool,
        is_bid: bool,
        price: F,
        amount: F,
        output: &mut Vec<Event<F>>,
        numbers: &Numbers<F, P, Lo, Hi>,
    )
        requires
            numbers.wf(),
            tardis::nanos_fit(timestamp),
            tardis::nanos_fit(local_timestamp),
        ensures
            ({
                let row = fast_row(
                    (timestamp, local_timestamp, is_snapshot, is_bid, price, amount),
                );
                let (state, events) = tardis::after_row(old(self)@, row, *numbers);
                &&& final(self)@ == state
                &&& final(output)@ == old(output)@ + events
            }),
    {
        let row = DepthRow {
            is_snapshot,
            is_bid,
            side: if is_bid {
                BUY_EVENT
            } else {
                SELL_EVENT
            },
            timestamp,
            local_timestamp,
            px: price,
            qty: amount,
        };
        self.inner.process_row(&row, output, numbers);
    }

    /// Appends a snapshot that is still being collected when the input ends.
    pub fn append_pending<P: Fn(&str) -> Option<F>, Lo: Fn(F, F) -> F, Hi: Fn(F, F) -> F>(
        &self,
        output: &mut Vec<Event<F>>,
        numbers: &Numbers<F, P, Lo, Hi>,
    )
        requires
            numbers.wf(),
        ensures
            final(output)@ == old(output)@ + tardis::pending_block(self@, *numbers),
    {
        self.inner.append_pending(output, numbers);
    }
}

/// The state after a line of a file. Lines that stand for nothing are passed over.
pub open spec fn after_fast_line<
    F,
    P: Fn(&str) -> Option<F>,
    Lo: Fn(F, F) -> F,
    Hi: Fn(F, F) -> F,
>(
    st: ConvertState<F>,
    file_type: FileType,
    line: Seq<char>,
    n: Numbers<F, P, Lo, Hi>,
) -> ConvertState<F> {
    let line = text::trimmed_end(line);
    match file_type {
        FileType::Trades => match fast_trade(n.parse, line, n.zero) {
            Some(event) => ConvertState { events: st.events.push(event), ..st },
            None => st,
        },
        FileType::Depth => match fast_depth(n.parse, line, n.zero) {
            Some(columns) => tardis::with_row(st, fast_row(columns), n),
            None => st,
        },
    }
}

/// The times of a line are 64-bit numbers, and of nanoseconds where it stands for an event.
pub open spec fn fast_line_fits<
    F,
    P: Fn(&str) -> Option<F>,
    Lo: Fn(F, F) -> F,
    Hi: Fn(F, F) -> F,
>(file_type: FileType, line: Seq<char>, n: Numbers<F, P, Lo, Hi>) -> bool {
    let line = text::trimmed_end(line);
    &&& columns_fit(line)
    &&& match file_type {
        FileType::Trades => fast_trade(n.parse, line, n.zero) is Some ==> column_nanos_fit(line),
        FileType::Depth => fast_depth(n.parse, line, n.zero) is Some ==> column_nanos_fit(line),
    }
}

/// The state after the lines of a file.
pub open spec fn after_fast_lines<
    F,
    P: Fn(&str) -> Option<F>,
    Lo: Fn(F, F) -> F,
    Hi: Fn(F, F) -> F,
>(
    st: ConvertState<F>,
    file_type: FileType,
    lines: Seq<Seq<char>>,
    n: Numbers<F, P, Lo, Hi>,
) -> ConvertState<F>
    decreases lines.len(),
{
    if lines.len() == 0 {
        st
    } else {
        after_fast_line(
            after_fast_lines(st, file_type, lines.drop_last(), n),
            file_type,
            lines.last(),
            n,
        )
    }
}

/// The state after files, or the message of the error.
pub open spec fn after_fast_files<
    F,
    P: Fn(&str) -> Option<F>,
    Lo: Fn(F, F) -> F,
    Hi: Fn(F, F) -> F,
>(st: ConvertState<F>, files: Seq<TardisFileModel>, n: Numbers<F, P, Lo, Hi>) -> Result<
    ConvertState<F>,
    Seq<char>,
>
    decreases files.len(),
{
    if files.len() == 0 {
        Ok(st)
    } else {
        match after_fast_files(st, files.drop_last(), n) {
            Ok(s) => match fast_type_of(files.last().header) {
                Some(file_type) => Ok(after_fast_lines(s, file_type, files.last().lines, n)),
                None => Err(tardis::unknown_file(files.last().name)),
            },
            Err(e) => Err(e),
        }
    }
}

/// The times of all lines that are reached fit.
pub open spec fn fast_files_fit<
    F,
    P: Fn(&str) -> Option<F>,
    Lo: Fn(F, F) -> F,
    Hi: Fn(F, F) -> F,
>(st: ConvertState<F>, files: Seq<TardisFileModel>, n: Numbers<F, P, Lo, Hi>) -> bool {
    forall|i: int, j: int|
        0 <= i < files.len() && 0 <= j < files[i].lines.len() && fast_type_of(
            files[i].header,
        ) is Some && #[trigger] after_fast_files(st, files.take(i), n) is Ok ==> fast_line_fits(
            fast_type_of(files[i].header)->0,
            #[trigger] files[i].lines[j],
            n,
        )
}

/// Converts data files line by line.
pub struct FastConverter<F> {
    events: Vec<Event<F>>,
    depth: DepthConverterFast<F>,
    base_latency: i64,
}

impl<F> View for FastConverter<F> {
    type V = ConvertState<F>;

    closed spec fn view(&self) -> ConvertState<F> {
        ConvertState { events: self.events@, depth: self.depth@ }
    }
}

impl<F: Copy> FastConverter<F> {
    /// No event carries the exchange or the local flag yet.
    pub open spec fn wf(&self) -> bool {
        self@.is_plain()
    }

    /// The latency that is added where local timestamps are corrected.
    pub closed spec fn base_latency(&self) -> i64 {
        self.base_latency
    }

    pub fn new(config: &TardisConvertConfig) -> (r: Self)
        ensures
            r.wf(),
            r@ == tardis::start_state::<F>(config.snapshot_mode),
            r.base_latency() == config.base_latency,
    {
        FastConverter {
            events: Vec::with_capacity(tardis::initial_capacity(config.buffer_size)),
            depth: DepthConverterFast::new(config.ss_buffer_size, config.snapshot_mode),
            base_latency: config.base_latency,
        }
    }

    /// Finds the type of a file from its header line.
    pub fn start_file(&self, name: &str, header: &str) -> (r: Result<FileType, String>)
        ensures
            match r {
                Ok(file_type) => fast_type_of(header@) == Some(file_type),
                Err(message) => fast_type_of(header@) is None && message@
                    == tardis::unknown_file(name@),
            },
    {
        match detect_file_type_fast(header) {
            Some(file_type) => Ok(file_type),
            None => {
                let mut message = "Unknown file type for ".to_string();
                message.append(name);
                Err(message)
            },
        }
    }

    /// Tells whether the times of a line fit.
    pub fn line_fits<P: Fn(&str) -> Option<F>, Lo: Fn(F, F) -> F, Hi: Fn(F, F) -> F>(
        &self,
        file_type: FileType,
        line: &str,
        numbers: &Numbers<F, P, Lo, Hi>,
    ) -> (r: bool)
        requires
            numbers.wf(),
        ensures
            r == fast_line_fits(file_type, line@, *numbers),
    {
        let line = text::trim_end(line);
        let fields = text::split_on(line, ',');
        let ghost parts = text::split(line@, ',');
        assert(parts == text::texts(fields@));
        assert forall|i: int| 0 <= i < fields@.len() implies #[trigger] fields@[i]@
            == parts[i] by {}
        if fields.len() > 2 && !digits_fit(fields[2]) {
            return false;
        }
        if fields.len() > 3 && !digits_fit(fields[3]) {
            return false;
        }
        if fields.len() < 8 {
            return true;
        }
        let none: bool = match file_type {
            FileType::Trades => fields[5].is_empty(),
            FileType::Depth => false,
        };
        none || (tardis::fits_nanos(parse_i64_fast(fields[2])) && tardis::fits_nanos(
            parse_i64_fast(fields[3]),
        ))
    }

    /// Takes the next line of a file.
    pub fn push_line<P: Fn(&str) -> Option<F>, Lo: Fn(F, F) -> F, Hi: Fn(F, F) -> F>(
        &mut self,
        file_type: FileType,
        line: &str,
        numbers: &Numbers<F, P, Lo, Hi>,
    )
        requires
            old(self).wf(),
            numbers.wf(),
            fast_line_fits(file_type, line@, *numbers),
        ensures
            final(self).wf(),
            final(self).base_latency() == old(self).base_latency(),
            final(self)@ == after_fast_line(old(self)@, file_type, line@, *numbers),
    {
        let line = text::trim_end(line);
        match file_type {
            FileType::Trades => {
                if let Some(event) = parse_trade_to_event(line, &numbers.parse, numbers.zero) {
                    proof {
                        normalize::lemma_kind_is_plain(
                            event,
                            TRADE_EVENT,
                            fast_trade_side(text::split(line@, ',')[5]),
                        );
                    }
                    self.events.push(event);
                }
            },
            FileType::Depth => {
                if let Some((ts, local_ts, is_snap, is_bid, px, qty)) = parse_depth_line(
                    line,
                    &numbers.parse,
                    numbers.zero,
                ) {
                    proof {
                        tardis::lemma_row_keeps_plain(
                            self@,
                            fast_row((ts, local_ts, is_snap, is_bid, px, qty)),
                            *numbers,
                        );
                    }
                    self.depth.process(
                        ts,
                        local_ts,
                        is_snap,
                        is_bid,
                        px,
                        qty,
                        &mut self.events,
                        numbers,
                    );
                }
            },
        }
    }

    /// Tells whether the latency of the events can be corrected within 64 bits.
    pub fn timestamps_fit<P: Fn(&str) -> Option<F>, Lo: Fn(F, F) -> F, Hi: Fn(F, F) -> F>(
        &self,
        numbers: &Numbers<F, P, Lo, Hi>,
    ) -> (r: bool)
        requires
            numbers.wf(),
        ensures
            r == validation::timestamps_in_range(
                tardis::at_end(self@, *numbers),
                self.base_latency() as int,
            ),
    {
        let mut pending: Vec<Event<F>> = Vec::new();
        self.depth.append_pending(&mut pending, numbers);
        assert(pending@ =~= tardis::pending_block(self@.depth, *numbers));
        validation::timestamps_fit_with(
            self.events.as_slice(),
            pending.as_slice(),
            self.base_latency,
        )
    }

    /// Ends the input: hands on a snapshot that is still being collected,
    /// corrects latency and order of the events and hands them out.
    pub fn finish<P: Fn(&str) -> Option<F>, Lo: Fn(F, F) -> F, Hi: Fn(F, F) -> F>(
        self,
        numbers: &Numbers<F, P, Lo, Hi>,
    ) -> (r: Result<Vec<Event<F>>, String>)
        requires
            self.wf(),
            numbers.wf(),
            validation::timestamps_in_range(
                tardis::at_end(self@, *numbers),
                self.base_latency() as int,
            ),
        ensures
            r is Ok,
            r->Ok_0@ == normalize::normalized(
                tardis::at_end(self@, *numbers),
                self.base_latency() as int,
            ),
    {
        proof {
            tardis::lemma_end_is_plain(self@, *numbers);
        }
        let mut events = self.events;
        self.depth.append_pending(&mut events, numbers);
        normalize::normalize_events(events, self.base_latency)
    }
}

/// Converts data files. Trade files should come before depth files.
pub fn convert_tardis_fast<
    F: Copy,
    P: Fn(&str) -> Option<F>,
    Lo: Fn(F, F) -> F,
    Hi: Fn(F, F) -> F,
>(
    input_files: &[TardisFile],
    config: &TardisConvertConfig,
    numbers: &Numbers<F, P, Lo, Hi>,
) -> (r: Result<Vec<Event<F>>, String>)
    requires
        numbers.wf(),
        fast_files_fit(
            tardis::start_state(config.snapshot_mode),
            tardis::files_view(input_files@),
            *numbers,
        ),
        match after_fast_files(
            tardis::start_state(config.snapshot_mode),
            tardis::files_view(input_files@),
            *numbers,
        ) {
            Ok(st) => validation::timestamps_in_range(
                tardis::at_end(st, *numbers),
                config.base_latency as int,
            ),
            Err(_) => true,
        },
    ensures
        match after_fast_files(
            tardis::start_state(config.snapshot_mode),
            tardis::files_view(input_files@),
            *numbers,
        ) {
            Ok(st) => r is Ok && r->Ok_0@ == normalize::normalized(
                tardis::at_end(st, *numbers),
                config.base_latency as int,
            ),
            Err(message) => r is Err && r->Err_0@ == message,
        },
{
    let mut converter = FastConverter::new(config);
    let ghost start = tardis::start_state::<F>(config.snapshot_mode);
    let ghost files = tardis::files_view(input_files@);
    let mut i: usize = 0;
    assert(files.take(0) =~= Seq::empty());
    while i < input_files.len()
        invariant
            numbers.wf(),
            converter.wf(),
            converter.base_latency() == config.base_latency,
            i <= input_files@.len(),
            files == tardis::files_view(input_files@),
            start == tardis::start_state::<F>(config.snapshot_mode),
            fast_files_fit(start, files, *numbers),
            after_fast_files(start, files.take(i as int), *numbers) == Ok::<
                ConvertState<F>,
                Seq<char>,
            >(converter@),
        decreases input_files@.len() - i,
    {
        let file = &input_files[i];
        let ghost before = converter@;
        assert(files[i as int] == file@);
        assert(files.take(i as int + 1).drop_last() =~= files.take(i as int));
        let file_type = match converter.start_file(file.name.as_str(), file.header.as_str()) {
            Ok(file_type) => file_type,
            Err(message) => {
                proof {
                    lemma_fast_error_stays(start, files, i as int + 1, *numbers);
                }
                return Err(message);
            },
        };
        let ghost lines = text::strings(file.lines@);
        let mut j: usize = 0;
        assert(lines.take(0) =~= Seq::empty());
        while j < file.lines.len()
            invariant
                numbers.wf(),
                converter.wf(),
                converter.base_latency() == config.base_latency,
                i < files.len(),
                file@ == files[i as int],
                fast_files_fit(start, files, *numbers),
                after_fast_files(start, files.take(i as int), *numbers) is Ok,
                fast_type_of(file@.header) == Some(file_type),
                lines == text::strings(file.lines@),
                lines == file@.lines,
                j <= lines.len(),
                after_fast_lines(before, file_type, lines.take(j as int), *numbers) == converter@,
            decreases lines.len() - j,
        {
            assert(file.lines@[j as int]@ == lines[j as int]);
            assert(lines[j as int] == files[i as int].lines[j as int]);
            assert(lines.take(j as int + 1).drop_last() =~= lines.take(j as int));
            converter.push_line(file_type, file.lines[j].as_str(), numbers);
            j += 1;
        }
        assert(lines.take(j as int) =~= lines);
        i += 1;
    }
    assert(files.take(i as int) =~= files);
    converter.finish(numbers)
}

proof fn lemma_fast_error_stays<
    F,
    P: Fn(&str) -> Option<F>,
    Lo: Fn(F, F) -> F,
    Hi: Fn(F, F) -> F,
>(st: ConvertState<F>, files: Seq<TardisFileModel>, i: int, n: Numbers<F, P, Lo, Hi>)
    requires
        0 <= i <= files.len(),
        after_fast_files(st, files.take(i), n) is Err,
    ensures
        after_fast_files(st, files, n) == after_fast_files(st, files.take(i), n),
    decreases files.len() - i,
{
    if i < files.len() {
        assert(files.take(i + 1).drop_last() =~= files.take(i));
        lemma_fast_error_stays(st, files, i + 1, n);
    } else {
        assert(files.take(i) =~= files);
    }
}

/// Converts data files with the default configuration.
pub fn convert_fast<F: Copy, P: Fn(&str) -> Option<F>, Lo: Fn(F, F) -> F, Hi: Fn(F, F) -> F>(
    input_files: &[TardisFile],
    numbers: &Numbers<F, P, Lo, Hi>,
) -> (r: Result<Vec<Event<F>>, String>)
    requires
        numbers.wf(),
        fast_files_fit(
            tardis::start_state(SnapshotMode::Process),
            tardis::files_view(input_files@),
            *numbers,
        ),
        match after_fast_files(
            tardis::start_state(SnapshotMode::Process),
            tardis::files_view(input_files@),
            *numbers,
        ) {
            Ok(st) => validation::timestamps_in_range(tardis::at_end(st, *numbers), 0),
            Err(_) => true,
        },
    ensures
        match after_fast_files(
            tardis::start_state(SnapshotMode::Process),
            tardis::files_view(input_files@),
            *numbers,
        ) {
            Ok(st) => r is Ok && r->Ok_0@ == normalize::normalized(
                tardis::at_end(st, *numbers),
                0,
            ),
            Err(message) => r is Err && r->Err_0@ == message,
        },
{
    convert_tardis_fast(input_files, &TardisConvertConfig::default(), numbers)
}

} // verus!
