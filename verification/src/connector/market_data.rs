//! Market data stream: what is done on each message, snapshot reply,
//! subscription and ping check.

use vstd::prelude::*;

use crate::connector::orderbook;
use crate::connector::orderbook::{
    BookModel, DepthEvent, DepthEventModel, OrderBookManager,
};
use crate::connector::rest;
use crate::connector::rest::SnapshotModel;
use crate::connector::stream;
use crate::connector::stream::{DepthModel, TradeModel};
use crate::numbers;
use crate::text;
use crate::text::LevelText;
use crate::types::{
    LOCAL_ASK_DEPTH_EVENT, LOCAL_BID_DEPTH_EVENT, LOCAL_BUY_TRADE_EVENT, LOCAL_DEPTH_CLEAR_EVENT,
    LOCAL_SELL_TRADE_EVENT,
};

verus! {

/// Something to be done for the stream. Feed events get their local timestamp
/// when they are published.
#[derive(Debug)]
pub enum Action<F> {
    /// Fetch the depth snapshot of a symbol.
    RequestSnapshot(String),
    BatchStart,
    BatchEnd,
    Feed { symbol: String, ev: u64, exch_ts: i64, px: F, qty: F },
    /// Subscribe to the streams of a symbol.
    Subscribe(String),
    /// Answer a ping.
    Pong,
}

/// What an `Action` says.
pub enum ActionModel<F> {
    RequestSnapshot(Seq<char>),
    BatchStart,
    BatchEnd,
    Feed { symbol: Seq<char>, ev: u64, exch_ts: int, px: F, qty: F },
    Subscribe(Seq<char>),
    Pong,
}

impl<F> View for Action<F> {
    type V = ActionModel<F>;

    open spec fn view(&self) -> ActionModel<F> {
        match *self {
            Action::RequestSnapshot(symbol) => ActionModel::RequestSnapshot(symbol@),
            Action::BatchStart => ActionModel::BatchStart,
            Action::BatchEnd => ActionModel::BatchEnd,
            Action::Feed { symbol, ev, exch_ts, px, qty } => ActionModel::Feed {
                symbol: symbol@,
                ev,
                exch_ts: exch_ts as int,
                px,
                qty,
            },
            Action::Subscribe(symbol) => ActionModel::Subscribe(symbol@),
            Action::Pong => ActionModel::Pong,
        }
    }
}

/// What a list of actions says.
pub open spec fn actions_view<F>(actions: Seq<Action<F>>) -> Seq<ActionModel<F>> {
    actions.map_values(|a: Action<F>| a@)
}

/// The numbers of price levels, `None` where one is no number.
pub open spec fn parsed_levels<F, P: Fn(&str) -> Option<F>>(
    parse: P,
    levels: Seq<LevelText>,
) -> Option<Seq<(F, F)>>
    decreases levels.len(),
{
    if levels.len() == 0 {
        Some(Seq::empty())
    } else {
        match (
            parsed_levels(parse, levels.drop_last()),
            numbers::number_in(parse, levels.last().0),
            numbers::number_in(parse, levels.last().1),
        ) {
            (Some(front), Some(px), Some(qty)) => Some(front.push((px, qty))),
            _ => None,
        }
    }
}

proof fn lemma_parsed_levels_none<F, P: Fn(&str) -> Option<F>>(
    parse: P,
    levels: Seq<LevelText>,
    i: int,
)
    requires
        0 <= i <= levels.len(),
        parsed_levels(parse, levels.take(i)) is None,
    ensures
        parsed_levels(parse, levels) is None,
    decreases levels.len() - i,
{
    if i < levels.len() {
        assert(levels.take(i + 1).drop_last() =~= levels.take(i));
        lemma_parsed_levels_none(parse, levels, i + 1);
    } else {
        assert(levels.take(i) =~= levels);
    }
}

fn parse_levels<F: Copy, P: Fn(&str) -> Option<F>>(levels: &Vec<(String, String)>, parse: &P) -> (r:
    Option<Vec<(F, F)>>)
    requires
        numbers::reads_text(*parse),
    ensures
        match r {
            Some(values) => parsed_levels(*parse, text::levels_view(levels@)) == Some(values@),
            None => parsed_levels(*parse, text::levels_view(levels@)) is None,
        },
{
    let ghost all = text::levels_view(levels@);
    let mut r: Vec<(F, F)> = Vec::new();
    let mut i: usize = 0;
    assert(all.take(0) =~= Seq::empty());
    while i < levels.len()
        invariant
            numbers::reads_text(*parse),
            all == text::levels_view(levels@),
            i <= levels@.len(),
            parsed_levels(*parse, all.take(i as int)) == Some(r@),
        decreases levels@.len() - i,
    {
        assert(all.take(i as int + 1).drop_last() =~= all.take(i as int));
        assert(all[i as int] == (levels@[i as int].0@, levels@[i as int].1@));
        match (
            numbers::read_number(parse, levels[i].0.as_str()),
            numbers::read_number(parse, levels[i].1.as_str()),
        ) {
            (Some(px), Some(qty)) => {
                r.push((px, qty));
            },
            _ => {
                proof {
                    lemma_parsed_levels_none(*parse, all, i as int + 1);
                }
                return None;
            },
        }
        i += 1;
    }
    assert(all.take(i as int) =~= all);
    Some(r)
}

/// The millisecond timestamp is a 64-bit number of nanoseconds.
pub open spec fn millis_fit(millis: i64) -> bool {
    i64::MIN <= millis * 1_000_000 <= i64::MAX
}

/// Tells whether a millisecond timestamp is a 64-bit number of nanoseconds.
pub fn fits_nanos(millis: i64) -> (r: bool)
    ensures
        r == millis_fit(millis),
{
    -9223372036854 <= millis && millis <= 9223372036854
}

/// A feed event of one level.
pub open spec fn level_feed<F>(symbol: Seq<char>, ev: u64, millis: i64, level: (F, F)) -> ActionModel<
    F,
> {
    ActionModel::Feed { symbol, ev, exch_ts: millis * 1_000_000, px: level.0, qty: level.1 }
}

/// A batch of depth events: bids, then asks. Nothing where a level is no number.
pub open spec fn depth_actions<F, P: Fn(&str) -> Option<F>>(
    parse: P,
    symbol: Seq<char>,
    millis: i64,
    bids: Seq<LevelText>,
    asks: Seq<LevelText>,
) -> Seq<ActionModel<F>> {
    match (parsed_levels(parse, bids), parsed_levels(parse, asks)) {
        (Some(bids), Some(asks)) => seq![ActionModel::BatchStart] + bids.map_values(
            |l: (F, F)| level_feed(symbol, LOCAL_BID_DEPTH_EVENT, millis, l),
        ) + asks.map_values(|l: (F, F)| level_feed(symbol, LOCAL_ASK_DEPTH_EVENT, millis, l))
            + seq![ActionModel::BatchEnd],
        _ => Seq::empty(),
    }
}

/// The timestamp of a batch fits, where the batch has an event.
pub open spec fn depth_fits<F, P: Fn(&str) -> Option<F>>(
    parse: P,
    millis: i64,
    bids: Seq<LevelText>,
    asks: Seq<LevelText>,
) -> bool {
    match (parsed_levels(parse, bids), parsed_levels(parse, asks)) {
        (Some(b), Some(a)) => b.len() + a.len() > 0 ==> millis_fit(millis),
        _ => true,
    }
}

fn push_levels<F: Copy>(
    out: &mut Vec<Action<F>>,
    symbol: &str,
    ev: u64,
    millis: i64,
    levels: &Vec<(F, F)>,
)
    requires
        levels@.len() > 0 ==> millis_fit(millis),
    ensures
        actions_view(final(out)@) == actions_view(old(out)@) + levels@.map_values(
            |l: (F, F)| level_feed(symbol@, ev, millis, l),
        ),
{
    let ghost start = actions_view(out@);
    let ghost feeds = levels@.map_values(|l: (F, F)| level_feed(symbol@, ev, millis, l));
    let mut i: usize = 0;
    assert(start + feeds.take(0) =~= start);
    while i < levels.len()
        invariant
            levels@.len() > 0 ==> millis_fit(millis),
            i <= levels@.len(),
            feeds == levels@.map_values(|l: (F, F)| level_feed(symbol@, ev, millis, l)),
            actions_view(out@) == start + feeds.take(i as int),
        decreases levels@.len() - i,
    {
        let ghost before = actions_view(out@);
        let (px, qty) = levels[i];
        let feed = Action::Feed {
            symbol: symbol.to_string(),
            ev,
            exch_ts: millis * 1_000_000,
            px,
            qty,
        };
        assert(feed@ == feeds[i as int]);
        let ghost feed_model = feed@;
        out.push(feed);
        assert(actions_view(out@) =~= before.push(feed_model));
        assert(start + feeds.take(i as int + 1) =~= before.push(feed_model));
        i += 1;
    }
    assert(feeds.take(i as int) =~= feeds);
}

/// Appends the depth events of a book change.
fn push_depth_events<F: Copy, P: Fn(&str) -> Option<F>>(
    out: &mut Vec<Action<F>>,
    symbol: &str,
    millis: i64,
    bids: &Vec<(String, String)>,
    asks: &Vec<(String, String)>,
    parse: &P,
)
    requires
        numbers::reads_text(*parse),
        depth_fits(*parse, millis, text::levels_view(bids@), text::levels_view(asks@)),
    ensures
        actions_view(final(out)@) == actions_view(old(out)@) + depth_actions(
            *parse,
            symbol@,
            millis,
            text::levels_view(bids@),
            text::levels_view(asks@),
        ),
{
    let ghost start = actions_view(out@);
    match (parse_levels(bids, parse), parse_levels(asks, parse)) {
        (Some(parsed_bids), Some(parsed_asks)) => {
            let ghost before = out@;
            out.push(Action::BatchStart);
            assert(actions_view(out@) =~= start.push(ActionModel::BatchStart));
            push_levels(out, symbol, LOCAL_BID_DEPTH_EVENT, millis, &parsed_bids);
            push_levels(out, symbol, LOCAL_ASK_DEPTH_EVENT, millis, &parsed_asks);
            let ghost body = actions_view(out@);
            out.push(Action::BatchEnd);
            assert(actions_view(out@) =~= body.push(ActionModel::BatchEnd));
            assert(actions_view(out@) =~= start + depth_actions(
                *parse,
                symbol@,
                millis,
                text::levels_view(bids@),
                text::levels_view(asks@),
            ));
        },
        _ => {
            assert(actions_view(out@) =~= start + Seq::empty());
        },
    }
}

/// The actions of a depth event. A snapshot is preceded by a clear event.
pub open spec fn event_actions<F, P: Fn(&str) -> Option<F>>(
    parse: P,
    zero: F,
    e: DepthEventModel,
) -> Seq<ActionModel<F>> {
    match e {
        DepthEventModel::Snapshot { symbol, transaction_time, bids, asks, .. } => seq![
            ActionModel::BatchStart,
            level_feed(symbol, LOCAL_DEPTH_CLEAR_EVENT, transaction_time, (zero, zero)),
            ActionModel::BatchEnd,
        ] + depth_actions(parse, symbol, transaction_time, bids, asks),
        DepthEventModel::Update { symbol, transaction_time, bids, asks, .. } => depth_actions(
            parse,
            symbol,
            transaction_time,
            bids,
            asks,
        ),
    }
}

/// The timestamps of a depth event fit.
pub open spec fn event_fits<F, P: Fn(&str) -> Option<F>>(parse: P, e: DepthEventModel) -> bool {
    match e {
        DepthEventModel::Snapshot { transaction_time, .. } => millis_fit(transaction_time),
        DepthEventModel::Update { transaction_time, bids, asks, .. } => depth_fits(
            parse,
            transaction_time,
            bids,
            asks,
        ),
    }
}

/// The actions of depth events, in turn.
pub open spec fn events_actions<F, P: Fn(&str) -> Option<F>>(
    parse: P,
    zero: F,
    events: Seq<DepthEventModel>,
) -> Seq<ActionModel<F>>
    decreases events.len(),
{
    if events.len() == 0 {
        Seq::empty()
    } else {
        events_actions(parse, zero, events.drop_last()) + event_actions(parse, zero, events.last())
    }
}

/// Books and actions after a depth update.
pub open spec fn after_depth_update<F, P: Fn(&str) -> Option<F>>(
    parse: P,
    books: Map<Seq<char>, BookModel>,
    d: DepthModel,
) -> (Map<Seq<char>, BookModel>, Seq<ActionModel<F>>) {
    let (book, (apply, request)) = orderbook::after_update(
        orderbook::book_or_fresh(books, d.symbol),
        d,
    );
    let fetch: Seq<ActionModel<F>> = if request {
        seq![ActionModel::RequestSnapshot(d.symbol)]
    } else {
        Seq::empty()
    };
    let feed: Seq<ActionModel<F>> = if apply {
        depth_actions(parse, d.symbol, d.transaction_time, d.bids, d.asks)
    } else {
        Seq::empty()
    };
    (books.insert(d.symbol, book), fetch + feed)
}

/// Books and actions after a snapshot reply. Where the snapshot leaves a gap,
/// another one is requested.
pub open spec fn after_snapshot_reply<F, P: Fn(&str) -> Option<F>>(
    parse: P,
    zero: F,
    books: Map<Seq<char>, BookModel>,
    symbol: Seq<char>,
    s: SnapshotModel,
) -> (Map<Seq<char>, BookModel>, Seq<ActionModel<F>>) {
    let (book, events) = orderbook::after_snapshot(orderbook::book_or_fresh(books, symbol), s);
    let fetch: Seq<ActionModel<F>> = if events.len() == 0 || orderbook::wants_snapshot(book) {
        seq![ActionModel::RequestSnapshot(symbol)]
    } else {
        Seq::empty()
    };
    (books.insert(symbol, book), events_actions(parse, zero, events) + fetch)
}

/// The actions of a trade: one feed event where price and quantity are
/// numbers and the trade is an ordinary one.
pub open spec fn trade_actions<F, P: Fn(&str) -> Option<F>>(parse: P, t: TradeModel) -> Seq<
    ActionModel<F>,
> {
    match (numbers::number_in(parse, t.price), numbers::number_in(parse, t.qty)) {
        (Some(px), Some(qty)) => if t.type_ == "MARKET"@ {
            seq![
                level_feed(
                    t.symbol,
                    if t.is_the_buyer_the_market_maker {
                        LOCAL_SELL_TRADE_EVENT
                    } else {
                        LOCAL_BUY_TRADE_EVENT
                    },
                    t.transaction_time,
                    (px, qty),
                ),
            ]
        } else {
            Seq::empty()
        },
        _ => Seq::empty(),
    }
}

/// Makes the actions of a trade.
pub fn process_trade<F: Copy, P: Fn(&str) -> Option<F>>(data: &stream::Trade, parse: &P) -> (r: Vec<
    Action<F>,
>)
    requires
        numbers::reads_text(*parse),
        trade_actions(*parse, data@).len() > 0 ==> millis_fit(data.transaction_time),
    ensures
        actions_view(r@) == trade_actions(*parse, data@),
{
    let mut r: Vec<Action<F>> = Vec::new();
    if let (Some(px), Some(qty)) = (
        numbers::read_number(parse, data.price.as_str()),
        numbers::read_number(parse, data.qty.as_str()),
    ) {
        if text::same_text(data.type_.as_str(), "MARKET") {
            assert(trade_actions(*parse, data@).len() == 1);
            r.push(
                Action::Feed {
                    symbol: data.symbol.clone(),
                    ev: if data.is_the_buyer_the_market_maker {
                        LOCAL_SELL_TRADE_EVENT
                    } else {
                        LOCAL_BUY_TRADE_EVENT
                    },
                    exch_ts: data.transaction_time * 1_000_000,
                    px,
                    qty,
                },
            );
        }
    }
    assert(actions_view(r@) =~= trade_actions(*parse, data@));
    r
}

/// The subscription request of a symbol.
pub open spec fn subscribe_text(symbol: Seq<char>, id: Seq<char>) -> Seq<char> {
    "{\n                            \"method\": \"SUBSCRIBE\",\n                            \"params\": [\n                                \""@
        + symbol + "@trade\",\n                                \""@ + symbol
        + "@depth@0ms\"\n                            ],\n                            \"id\": \""@
        + id + "\"\n                        }"@
}

/// Writes the subscription request of a symbol.
pub fn subscribe_message(symbol: &str, id: &str) -> (r: String)
    ensures
        r@ == subscribe_text(symbol@, id@),
{
    let mut r =
        "{\n                            \"method\": \"SUBSCRIBE\",\n                            \"params\": [\n                                \"".to_string();
    r.append(symbol);
    r.append("@trade\",\n                                \"");
    r.append(symbol);
    r.append("@depth@0ms\"\n                            ],\n                            \"id\": \"");
    r.append(id);
    r.append("\"\n                        }");
    r
}

/// Nanoseconds without a ping after which a connection counts as lost.
pub const PING_TIMEOUT: u64 = 300_000_000_000;

/// Something that happens on the connection. Times are nanoseconds of a
/// monotonic clock.
pub enum Input {
    /// A depth snapshot arrived.
    Snapshot { symbol: String, depth: rest::Depth },
    /// The ping check is due.
    PingCheck { now: u64 },
    /// A symbol is to be subscribed to.
    Symbol(String),
    /// No more symbols will come.
    SymbolsClosed,
    /// Some symbols were missed.
    SymbolsLagged,
    DepthUpdate(stream::Depth),
    Trade(stream::Trade),
    /// A text that is no event, or a frame without meaning here.
    Ignored,
    Ping { now: u64 },
    /// The server closed the connection.
    Close(Option<String>),
    /// The connection failed, with this message.
    Failed(String),
    /// The stream ended.
    End,
}

/// Why a connection ends.
#[derive(Debug)]
pub enum StreamEnd {
    /// No more symbols will come: the end is wanted.
    Closed,
    /// The connection was interrupted.
    ConnectionInterrupted,
    /// The server closed the connection, with this reason.
    ConnectionAbort(String),
    /// The connection failed, with this message.
    Failed(String),
}

/// Why a connection ends.
pub enum EndModel {
    Closed,
    ConnectionInterrupted,
    ConnectionAbort(Seq<char>),
    Failed(Seq<char>),
}

impl View for StreamEnd {
    type V = EndModel;

    open spec fn view(&self) -> EndModel {
        match *self {
            StreamEnd::Closed => EndModel::Closed,
            StreamEnd::ConnectionInterrupted => EndModel::ConnectionInterrupted,
            StreamEnd::ConnectionAbort(reason) => EndModel::ConnectionAbort(reason@),
            StreamEnd::Failed(message) => EndModel::Failed(message@),
        }
    }
}

/// Books, time of the last ping, and what is to be done: actions, or the end
/// of the connection.
pub struct StepModel<F> {
    pub books: Map<Seq<char>, BookModel>,
    pub last_ping: u64,
    pub outcome: Result<Seq<ActionModel<F>>, EndModel>,
}

/// What happens on an input.
pub open spec fn after_input<F, P: Fn(&str) -> Option<F>>(
    parse: P,
    zero: F,
    books: Map<Seq<char>, BookModel>,
    last_ping: u64,
    input: Input,
) -> StepModel<F> {
    match input {
        Input::Snapshot { symbol, depth } => {
            let (books, actions) = after_snapshot_reply(parse, zero, books, symbol@, depth@);
            StepModel { books, last_ping, outcome: Ok(actions) }
        },
        Input::PingCheck { now } => StepModel {
            books,
            last_ping,
            outcome: if now - last_ping > PING_TIMEOUT {
                Err(EndModel::ConnectionInterrupted)
            } else {
                Ok(Seq::empty())
            },
        },
        Input::Symbol(symbol) => StepModel {
            books: books.insert(symbol@, orderbook::fresh_book(symbol@)),
            last_ping,
            outcome: Ok(seq![ActionModel::Subscribe(symbol@)]),
        },
        Input::SymbolsClosed => StepModel { books, last_ping, outcome: Err(EndModel::Closed) },
        Input::SymbolsLagged => StepModel { books, last_ping, outcome: Ok(Seq::empty()) },
        Input::DepthUpdate(data) => {
            let (books, actions) = after_depth_update(parse, books, data@);
            StepModel { books, last_ping, outcome: Ok(actions) }
        },
        Input::Trade(data) => StepModel {
            books,
            last_ping,
            outcome: Ok(trade_actions(parse, data@)),
        },
        Input::Ignored => StepModel { books, last_ping, outcome: Ok(Seq::empty()) },
        Input::Ping { now } => StepModel {
            books,
            last_ping: now,
            outcome: Ok(seq![ActionModel::Pong]),
        },
        Input::Close(reason) => StepModel {
            books,
            last_ping,
            outcome: Err(
                EndModel::ConnectionAbort(
                    match reason {
                        Some(text) => text@,
                        None => Seq::empty(),
                    },
                ),
            ),
        },
        Input::Failed(message) => StepModel {
            books,
            last_ping,
            outcome: Err(EndModel::Failed(message@)),
        },
        Input::End => StepModel {
            books,
            last_ping,
            outcome: Err(EndModel::ConnectionInterrupted),
        },
    }
}

/// The timestamps that an input brings fit.
pub open spec fn input_fits<F, P: Fn(&str) -> Option<F>>(
    parse: P,
    books: Map<Seq<char>, BookModel>,
    input: Input,
) -> bool {
    match input {
        Input::Snapshot { symbol, depth } => {
            let events = orderbook::after_snapshot(
                orderbook::book_or_fresh(books, symbol@),
                depth@,
            ).1;
            forall|i: int| 0 <= i < events.len() ==> event_fits(parse, #[trigger] events[i])
        },
        Input::DepthUpdate(data) => orderbook::after_update(
            orderbook::book_or_fresh(books, data@.symbol),
            data@,
        ).1.0 ==> depth_fits(parse, data.transaction_time, data@.bids, data@.asks),
        Input::Trade(data) => trade_actions(parse, data@).len() > 0 ==> millis_fit(
            data.transaction_time,
        ),
        _ => true,
    }
}

/// The stream's state: books, and when the last ping came.
pub struct MarketDataStream {
    order_book_manager: OrderBookManager,
    last_ping: u64,
}

impl MarketDataStream {
    /// The books by symbol.
    pub closed spec fn books(&self) -> Map<Seq<char>, BookModel> {
        self.order_book_manager@
    }

    /// When the last ping came.
    pub closed spec fn last_ping(&self) -> u64 {
        self.last_ping
    }

    /// Every symbol has at most one book.
    pub closed spec fn wf(&self) -> bool {
        self.order_book_manager.wf()
    }

    pub fn new() -> (r: Self)
        ensures
            r.wf(),
            r.books() == Map::<Seq<char>, BookModel>::empty(),
            r.last_ping() == 0,
    {
        MarketDataStream { order_book_manager: OrderBookManager::new(), last_ping: 0 }
    }

    /// A new connection is there: all books start over.
    pub fn connected(&mut self, now: u64)
        requires
            old(self).wf(),
        ensures
            final(self).wf(),
            final(self).books() == old(self).books().map_entries(
                |s: Seq<char>, b: BookModel| orderbook::fresh_book(s),
            ),
            final(self).last_ping() == now,
    {
        self.order_book_manager.mark_all_resync();
        self.last_ping = now;
    }

    /// Process a depth update event.
    pub fn process_depth_update<F: Copy, P: Fn(&str) -> Option<F>>(
        &mut self,
        data: &stream::Depth,
        parse: &P,
    ) -> (r: Vec<Action<F>>)
        requires
            old(self).wf(),
            numbers::reads_text(*parse),
            orderbook::after_update(
                orderbook::book_or_fresh(old(self).books(), data@.symbol),
                data@,
            ).1.0 ==> depth_fits(*parse, data.transaction_time, data@.bids, data@.asks),
        ensures
            final(self).wf(),
            final(self).last_ping() == old(self).last_ping(),
            (final(self).books(), actions_view(r@)) == after_depth_update(
                *parse,
                old(self).books(),
                data@,
            ),
    {
        let mut r: Vec<Action<F>> = Vec::new();
        let (should_process, should_request_snapshot) = self.order_book_manager.on_depth_update(
            data,
        );
        if should_request_snapshot {
            r.push(Action::RequestSnapshot(data.symbol.clone()));
        }
        assert(actions_view(r@) =~= (if should_request_snapshot {
            seq![ActionModel::<F>::RequestSnapshot(data@.symbol)]
        } else {
            Seq::empty()
        }));
        if should_process {
            push_depth_events(
                &mut r,
                data.symbol.as_str(),
                data.transaction_time,
                &data.bids,
                &data.asks,
                parse,
            );
        }
        assert(actions_view(r@) =~= after_depth_update(*parse, old(self).books(), data@).1);
        r
    }

    /// Process a snapshot reply.
    pub fn process_snapshot<F: Copy, P: Fn(&str) -> Option<F>>(
        &mut self,
        symbol: &str,
        snapshot: &rest::Depth,
        parse: &P,
        zero: F,
    ) -> (r: Vec<Action<F>>)
        requires
            old(self).wf(),
            numbers::reads_text(*parse),
            ({
                let events = orderbook::after_snapshot(
                    orderbook::book_or_fresh(old(self).books(), symbol@),
                    snapshot@,
                ).1;
                forall|i: int|
                    0 <= i < events.len() ==> event_fits(*parse, #[trigger] events[i])
            }),
        ensures
            final(self).wf(),
            final(self).last_ping() == old(self).last_ping(),
            (final(self).books(), actions_view(r@)) == after_snapshot_reply(
                *parse,
                zero,
                old(self).books(),
                symbol@,
                snapshot@,
            ),
    {
        let mut r: Vec<Action<F>> = Vec::new();
        let events = self.order_book_manager.on_snapshot(symbol, snapshot);
        let ghost all = orderbook::events_view(events@);
        let ghost (book, expected) = orderbook::after_snapshot(
            orderbook::book_or_fresh(old(self).books(), symbol@),
            snapshot@,
        );
        if events.len() == 0 {
            r.push(Action::RequestSnapshot(symbol.to_string()));
            assert(actions_view(r@) =~= after_snapshot_reply(
                *parse,
                zero,
                old(self).books(),
                symbol@,
                snapshot@,
            ).1);
            return r;
        }
        let mut i: usize = 0;
        assert(all.take(0) =~= Seq::empty());
        assert(actions_view(r@) =~= Seq::empty());
        while i < events.len()
            invariant
                numbers::reads_text(*parse),
                all == orderbook::events_view(events@),
                i <= events@.len(),
                forall|k: int| 0 <= k < all.len() ==> event_fits(*parse, #[trigger] all[k]),
                actions_view(r@) == events_actions(*parse, zero, all.take(i as int)),
            decreases events@.len() - i,
        {
            let ghost before = actions_view(r@);
            assert(all.take(i as int + 1).drop_last() =~= all.take(i as int));
            assert(all[i as int] == events@[i as int]@);
            assert(event_fits(*parse, all[i as int]));
            match &events[i] {
                DepthEvent::Snapshot { symbol, transaction_time, bids, asks, .. } => {
                    r.push(Action::BatchStart);
                    r.push(
                        Action::Feed {
                            symbol: symbol.clone(),
                            ev: LOCAL_DEPTH_CLEAR_EVENT,
                            exch_ts: *transaction_time * 1_000_000,
                            px: zero,
                            qty: zero,
                        },
                    );
                    r.push(Action::BatchEnd);
                    assert(actions_view(r@) =~= before + seq![
                        ActionModel::BatchStart,
                        level_feed(
                            symbol@,
                            LOCAL_DEPTH_CLEAR_EVENT,
                            *transaction_time,
                            (zero, zero),
                        ),
                        ActionModel::BatchEnd,
                    ]);
                    push_depth_events(&mut r, symbol.as_str(), *transaction_time, bids, asks, parse);
                },
                DepthEvent::Update { symbol, transaction_time, bids, asks, .. } => {
                    push_depth_events(&mut r, symbol.as_str(), *transaction_time, bids, asks, parse);
                },
            }
            assert(actions_view(r@) =~= before + event_actions(*parse, zero, all[i as int]));
            i += 1;
        }
        assert(all.take(i as int) =~= all);
        let ghost body = actions_view(r@);
        if self.order_book_manager.needs_snapshot(symbol) {
            r.push(Action::RequestSnapshot(symbol.to_string()));
            assert(actions_view(r@) =~= body.push(ActionModel::RequestSnapshot(symbol@)));
        }
        assert(actions_view(r@) =~= after_snapshot_reply(
            *parse,
            zero,
            old(self).books(),
            symbol@,
            snapshot@,
        ).1);
        r
    }

    /// Takes an input and tells what is to be done.
    pub fn step<F: Copy, P: Fn(&str) -> Option<F>>(
        &mut self,
        input: &Input,
        parse: &P,
        zero: F,
    ) -> (r: Result<Vec<Action<F>>, StreamEnd>)
        requires
            old(self).wf(),
            numbers::reads_text(*parse),
            input_fits(*parse, old(self).books(), *input),
        ensures
            final(self).wf(),
            ({
                let next = after_input(
                    *parse,
                    zero,
                    old(self).books(),
                    old(self).last_ping(),
                    *input,
                );
                &&& final(self).books() == next.books
                &&& final(self).last_ping() == next.last_ping
                &&& match r {
                    Ok(actions) => next.outcome == Ok::<_, EndModel>(actions_view(actions@)),
                    Err(end) => next.outcome == Err::<Seq<ActionModel<F>>, _>(end@),
                }
            }),
    {
        let mut actions: Vec<Action<F>> = Vec::new();
        assert(actions_view(actions@) =~= Seq::empty());
        match input {
            Input::Snapshot { symbol, depth } => {
                return Ok(self.process_snapshot(symbol.as_str(), depth, parse, zero));
            },
            Input::PingCheck { now } => {
                if *now > self.last_ping && *now - self.last_ping > PING_TIMEOUT {
                    return Err(StreamEnd::ConnectionInterrupted);
                }
            },
            Input::Symbol(symbol) => {
                self.order_book_manager.start_init(symbol.as_str());
                actions.push(Action::Subscribe(symbol.clone()));
                assert(actions_view(actions@) =~= seq![ActionModel::<F>::Subscribe(symbol@)]);
            },
            Input::SymbolsClosed => return Err(StreamEnd::Closed),
            Input::SymbolsLagged => {},
            Input::DepthUpdate(data) => return Ok(self.process_depth_update(data, parse)),
            Input::Trade(data) => return Ok(process_trade(data, parse)),
            Input::Ignored => {},
            Input::Ping { now } => {
                self.last_ping = *now;
                actions.push(Action::Pong);
                assert(actions_view(actions@) =~= seq![ActionModel::<F>::Pong]);
            },
            Input::Close(reason) => {
                return Err(
                    StreamEnd::ConnectionAbort(
                        match reason {
                            Some(text) => text.clone(),
                            None => {
                                let none = String::new();
                                assert(none@ =~= Seq::empty());
                                none
                            },
                        },
                    ),
                );
            },
            Input::Failed(message) => return Err(StreamEnd::Failed(message.clone())),
            Input::End => return Err(StreamEnd::ConnectionInterrupted),
        }
        Ok(actions)
    }
}

/// A book that still wants a snapshot after a reply has another one requested,
/// any other reply is handed on without a request, and the books of other
/// symbols stay as they are.
pub proof fn law_snapshot_reply<F, P: Fn(&str) -> Option<F>>(
    parse: P,
    zero: F,
    books: Map<Seq<char>, BookModel>,
    symbol: Seq<char>,
    s: SnapshotModel,
)
    ensures
        ({
            let (after, actions) = after_snapshot_reply(parse, zero, books, symbol, s);
            let events = orderbook::after_snapshot(orderbook::book_or_fresh(books, symbol), s).1;
            &&& orderbook::wants_snapshot(after[symbol]) ==> actions.len() > 0 && actions.last()
                == ActionModel::<F>::RequestSnapshot(symbol)
            &&& !orderbook::wants_snapshot(after[symbol]) ==> actions == events_actions(
                parse,
                zero,
                events,
            )
            &&& forall|other: Seq<char>|
                other != symbol ==> after.contains_key(other) == books.contains_key(other) && (
                books.contains_key(other) ==> #[trigger] after[other] == books[other])
        }),
{
    let (after, actions) = after_snapshot_reply(parse, zero, books, symbol, s);
    let (book, events) = orderbook::after_snapshot(orderbook::book_or_fresh(books, symbol), s);
    if !orderbook::wants_snapshot(after[symbol]) {
        assert(actions =~= events_actions(parse, zero, events));
    }
}

} // verus!
