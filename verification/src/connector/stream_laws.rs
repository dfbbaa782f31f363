//! What the market data stream makes of trades, book changes and the other
//! things that happen on its connection.

use vstd::prelude::*;

use crate::connector::market_data;
use crate::connector::market_data::{ActionModel, EndModel, Input};
use crate::connector::orderbook;
use crate::connector::orderbook::{BookModel, DepthEvent, DepthEventModel, SymbolOrderBook, SyncState};
use crate::connector::rest;
use crate::connector::rest::SnapshotModel;
use crate::connector::stream;
use crate::connector::stream::{DepthModel, TradeModel};
use crate::numbers;
use crate::text;
use crate::text::LevelText;
use crate::types::{
    LOCAL_ASK_DEPTH_EVENT, LOCAL_BID_DEPTH_EVENT, LOCAL_BUY_TRADE_EVENT, LOCAL_DEPTH_CLEAR_EVENT,
    LOCAL_SELL_TRADE_EVENT,
};

verus! {

/// A depth event, a trade and a snapshot are taken as they stand: every level
/// with its price and its quantity, every time and every id.
pub proof fn law_messages_are_taken_whole(d: stream::Depth, s: rest::Depth, t: stream::Trade)
    ensures
        d@.event_time == d.event_time,
        d@.transaction_time == d.transaction_time,
        d@.symbol == d.symbol@,
        d@.first_update_id == d.first_update_id,
        d@.last_update_id == d.last_update_id,
        d@.prev_update_id == d.prev_update_id,
        d@.bids.len() == d.bids@.len(),
        forall|i: int|
            0 <= i < d.bids@.len() ==> #[trigger] d@.bids[i] == (d.bids@[i].0@, d.bids@[i].1@),
        d@.asks.len() == d.asks@.len(),
        forall|i: int|
            0 <= i < d.asks@.len() ==> #[trigger] d@.asks[i] == (d.asks@[i].0@, d.asks@[i].1@),
        s@.last_update_id == s.last_update_id,
        s@.event_time == s.event_time,
        s@.transaction_time == s.transaction_time,
        s@.bids.len() == s.bids@.len(),
        forall|i: int|
            0 <= i < s.bids@.len() ==> #[trigger] s@.bids[i] == (s.bids@[i].0@, s.bids@[i].1@),
        s@.asks.len() == s.asks@.len(),
        forall|i: int|
            0 <= i < s.asks@.len() ==> #[trigger] s@.asks[i] == (s.asks@[i].0@, s.asks@[i].1@),
        t@.symbol == t.symbol@,
        t@.transaction_time == t.transaction_time,
        t@.price == t.price@,
        t@.qty == t.qty@,
        t@.type_ == t.type_@,
        t@.is_the_buyer_the_market_maker == t.is_the_buyer_the_market_maker,
{
}

/// A book is known by all that it holds, each buffered event included.
pub proof fn law_books_are_taken_whole(b: SymbolOrderBook)
    ensures
        b@.symbol == b.symbol@,
        b@.state == b.state,
        b@.pending.len() == b.pending_events@.len(),
        forall|i: int|
            0 <= i < b.pending_events@.len() ==> #[trigger] b@.pending[i]
                == b.pending_events@[i]@,
        b@.last_update_id == b.last_update_id,
        b@.snapshot_last_update_id == b.snapshot_last_update_id,
        b@.awaiting_first_event == b.awaiting_first_event,
{
}

/// The events that a book hands out are taken as they stand.
pub proof fn law_book_events_are_taken_whole(events: Seq<DepthEvent>)
    ensures
        orderbook::events_view(events).len() == events.len(),
        forall|i: int|
            0 <= i < events.len() ==> match #[trigger] events[i] {
                DepthEvent::Snapshot { symbol, transaction_time, bids, asks, last_update_id } => {
                    orderbook::events_view(events)[i] == (DepthEventModel::Snapshot {
                        symbol: symbol@,
                        transaction_time,
                        bids: bids@.map_values(|l: (String, String)| (l.0@, l.1@)),
                        asks: asks@.map_values(|l: (String, String)| (l.0@, l.1@)),
                        last_update_id,
                    })
                },
                DepthEvent::Update {
                    symbol,
                    transaction_time,
                    bids,
                    asks,
                    first_update_id,
                    last_update_id,
                } => {
                    orderbook::events_view(events)[i] == (DepthEventModel::Update {
                        symbol: symbol@,
                        transaction_time,
                        bids: bids@.map_values(|l: (String, String)| (l.0@, l.1@)),
                        asks: asks@.map_values(|l: (String, String)| (l.0@, l.1@)),
                        first_update_id,
                        last_update_id,
                    })
                },
            },
{
    assert forall|i: int| 0 <= i < events.len() implies match #[trigger] events[i] {
        DepthEvent::Snapshot { symbol, transaction_time, bids, asks, last_update_id } => {
            orderbook::events_view(events)[i] == (DepthEventModel::Snapshot {
                symbol: symbol@,
                transaction_time,
                bids: bids@.map_values(|l: (String, String)| (l.0@, l.1@)),
                asks: asks@.map_values(|l: (String, String)| (l.0@, l.1@)),
                last_update_id,
            })
        },
        DepthEvent::Update {
            symbol,
            transaction_time,
            bids,
            asks,
            first_update_id,
            last_update_id,
        } => {
            orderbook::events_view(events)[i] == (DepthEventModel::Update {
                symbol: symbol@,
                transaction_time,
                bids: bids@.map_values(|l: (String, String)| (l.0@, l.1@)),
                asks: asks@.map_values(|l: (String, String)| (l.0@, l.1@)),
                first_update_id,
                last_update_id,
            })
        },
    } by {
        match events[i] {
            DepthEvent::Snapshot { bids, asks, .. } => {
                assert(text::levels_view(bids@) =~= bids@.map_values(
                    |l: (String, String)| (l.0@, l.1@),
                ));
                assert(text::levels_view(asks@) =~= asks@.map_values(
                    |l: (String, String)| (l.0@, l.1@),
                ));
            },
            DepthEvent::Update { bids, asks, .. } => {
                assert(text::levels_view(bids@) =~= bids@.map_values(
                    |l: (String, String)| (l.0@, l.1@),
                ));
                assert(text::levels_view(asks@) =~= asks@.map_values(
                    |l: (String, String)| (l.0@, l.1@),
                ));
            },
        }
    }
}

/// The number in a text is the one that `parse` gives for it.
pub proof fn law_number_is_the_one_that_is_read<F, P: Fn(&str) -> Option<F>>(
    parse: P,
    s: &str,
    r: Option<F>,
)
    requires
        numbers::reads_text(parse),
        call_ensures(parse, (s,), r),
    ensures
        numbers::number_in(parse, s@) == r,
{
    assert(numbers::reading(parse, s@, r));
    assert(numbers::reading(parse, s@, numbers::number_in(parse, s@)));
}

/// Prices and quantities are all numbers.
pub open spec fn all_numbers<F, P: Fn(&str) -> Option<F>>(
    parse: P,
    levels: Seq<LevelText>,
) -> bool {
    forall|i: int|
        0 <= i < levels.len() ==> numbers::number_in(parse, (#[trigger] levels[i]).0) is Some
            && numbers::number_in(parse, levels[i].1) is Some
}

/// Levels are read all or none: all of them where each price and each quantity
/// is a number, in their order, and none where one is not.
pub proof fn law_levels_are_read_all_or_none<F, P: Fn(&str) -> Option<F>>(
    parse: P,
    levels: Seq<LevelText>,
)
    ensures
        market_data::parsed_levels(parse, levels) is Some == all_numbers(parse, levels),
        all_numbers(parse, levels) ==> {
            let read = market_data::parsed_levels(parse, levels)->0;
            &&& read.len() == levels.len()
            &&& forall|i: int|
                0 <= i < levels.len() ==> #[trigger] read[i] == (
                    numbers::number_in(parse, levels[i].0)->0,
                    numbers::number_in(parse, levels[i].1)->0,
                )
        },
    decreases levels.len(),
{
    if levels.len() > 0 {
        let front = levels.drop_last();
        law_levels_are_read_all_or_none(parse, front);
        let n = levels.len() - 1;
        if all_numbers(parse, levels) {
            assert forall|i: int| 0 <= i < front.len() implies numbers::number_in(
                parse,
                (#[trigger] front[i]).0,
            ) is Some && numbers::number_in(parse, front[i].1) is Some by {
                assert(levels[i] == front[i]);
            }
            assert(levels[n] == levels.last());
        } else if market_data::parsed_levels(parse, levels) is Some {
            assert forall|i: int| 0 <= i < levels.len() implies numbers::number_in(
                parse,
                (#[trigger] levels[i]).0,
            ) is Some && numbers::number_in(parse, levels[i].1) is Some by {
                if i < n {
                    assert(levels[i] == front[i]);
                } else {
                    assert(levels[i] == levels.last());
                }
            }
        }
    }
}

/// The action feeds one level: its kind, its time in nanoseconds, its numbers.
pub open spec fn feeds_level<F, P: Fn(&str) -> Option<F>>(
    parse: P,
    a: ActionModel<F>,
    of: Seq<char>,
    kind: u64,
    millis: i64,
    level: LevelText,
) -> bool {
    match a {
        ActionModel::Feed { symbol, ev, exch_ts, px, qty } => {
            &&& symbol == of
            &&& ev == kind
            &&& exch_ts == millis * 1_000_000
            &&& numbers::number_in(parse, level.0) == Some(px)
            &&& numbers::number_in(parse, level.1) == Some(qty)
        },
        _ => false,
    }
}

/// The actions feed a whole book change in one batch: every bid, then every
/// ask, in their order.
pub open spec fn feeds_batch<F, P: Fn(&str) -> Option<F>>(
    parse: P,
    actions: Seq<ActionModel<F>>,
    symbol: Seq<char>,
    millis: i64,
    bids: Seq<LevelText>,
    asks: Seq<LevelText>,
) -> bool {
    &&& actions.len() == bids.len() + asks.len() + 2
    &&& actions[0] == ActionModel::<F>::BatchStart
    &&& actions[actions.len() - 1] == ActionModel::<F>::BatchEnd
    &&& forall|i: int|
        0 <= i < bids.len() ==> feeds_level(
            parse,
            actions[i + 1],
            symbol,
            LOCAL_BID_DEPTH_EVENT,
            millis,
            #[trigger] bids[i],
        )
    &&& forall|i: int|
        0 <= i < asks.len() ==> feeds_level(
            parse,
            actions[bids.len() + i + 1],
            symbol,
            LOCAL_ASK_DEPTH_EVENT,
            millis,
            #[trigger] asks[i],
        )
}

/// A book change whose levels are all numbers is fed level by level in one
/// batch, and any other one not at all.
pub proof fn law_book_change_is_one_batch<F, P: Fn(&str) -> Option<F>>(
    parse: P,
    symbol: Seq<char>,
    millis: i64,
    bids: Seq<LevelText>,
    asks: Seq<LevelText>,
)
    ensures
        ({
            let actions = market_data::depth_actions::<F, P>(parse, symbol, millis, bids, asks);
            if all_numbers(parse, bids) && all_numbers(parse, asks) {
                feeds_batch(parse, actions, symbol, millis, bids, asks)
            } else {
                actions.len() == 0
            }
        }),
{
    law_levels_are_read_all_or_none::<F, P>(parse, bids);
    law_levels_are_read_all_or_none::<F, P>(parse, asks);
    let actions = market_data::depth_actions::<F, P>(parse, symbol, millis, bids, asks);
    if all_numbers(parse, bids) && all_numbers(parse, asks) {
        let b = market_data::parsed_levels(parse, bids)->0;
        let a = market_data::parsed_levels(parse, asks)->0;
        assert forall|i: int| 0 <= i < bids.len() implies feeds_level(
            parse,
            actions[i + 1],
            symbol,
            LOCAL_BID_DEPTH_EVENT,
            millis,
            #[trigger] bids[i],
        ) by {
            assert(actions[i + 1] == market_data::level_feed(
                symbol,
                LOCAL_BID_DEPTH_EVENT,
                millis,
                b[i],
            ));
        }
        assert forall|i: int| 0 <= i < asks.len() implies feeds_level(
            parse,
            actions[bids.len() + i + 1],
            symbol,
            LOCAL_ASK_DEPTH_EVENT,
            millis,
            #[trigger] asks[i],
        ) by {
            assert(actions[bids.len() + i + 1] == market_data::level_feed(
                symbol,
                LOCAL_ASK_DEPTH_EVENT,
                millis,
                a[i],
            ));
        }
    }
}

/// A snapshot clears the book in a batch of its own before its levels are fed;
/// an update is fed on top of what is there.
pub proof fn law_snapshot_clears_the_book<F, P: Fn(&str) -> Option<F>>(
    parse: P,
    zero: F,
    e: DepthEventModel,
)
    ensures
        ({
            let actions = market_data::event_actions(parse, zero, e);
            match e {
                DepthEventModel::Snapshot { symbol, transaction_time, bids, asks, .. } => {
                    &&& actions.len() >= 3
                    &&& actions[0] == ActionModel::<F>::BatchStart
                    &&& actions[1] == (ActionModel::Feed {
                        symbol,
                        ev: LOCAL_DEPTH_CLEAR_EVENT,
                        exch_ts: transaction_time * 1_000_000,
                        px: zero,
                        qty: zero,
                    })
                    &&& actions[2] == ActionModel::<F>::BatchEnd
                    &&& if all_numbers(parse, bids) && all_numbers(parse, asks) {
                        feeds_batch(
                            parse,
                            actions.skip(3),
                            symbol,
                            transaction_time,
                            bids,
                            asks,
                        )
                    } else {
                        actions.len() == 3
                    }
                },
                DepthEventModel::Update { symbol, transaction_time, bids, asks, .. } => {
                    if all_numbers(parse, bids) && all_numbers(parse, asks) {
                        feeds_batch(parse, actions, symbol, transaction_time, bids, asks)
                    } else {
                        actions.len() == 0
                    }
                },
            }
        }),
{
    match e {
        DepthEventModel::Snapshot { symbol, transaction_time, bids, asks, .. } => {
            law_book_change_is_one_batch::<F, P>(parse, symbol, transaction_time, bids, asks);
            let rest = market_data::depth_actions::<F, P>(
                parse,
                symbol,
                transaction_time,
                bids,
                asks,
            );
            assert(market_data::event_actions(parse, zero, e).skip(3) =~= rest);
        },
        DepthEventModel::Update { symbol, transaction_time, bids, asks, .. } => {
            law_book_change_is_one_batch::<F, P>(parse, symbol, transaction_time, bids, asks);
        },
    }
}

/// Events are fed one after the other, each in full.
pub proof fn law_events_are_fed_in_turn<F, P: Fn(&str) -> Option<F>>(
    parse: P,
    zero: F,
    events: Seq<DepthEventModel>,
    e: DepthEventModel,
)
    ensures
        market_data::events_actions(parse, zero, Seq::empty()) == Seq::<ActionModel<F>>::empty(),
        market_data::events_actions(parse, zero, events.push(e)) == market_data::events_actions(
            parse,
            zero,
            events,
        ) + market_data::event_actions(parse, zero, e),
{
    assert(events.push(e).drop_last() =~= events);
}

/// An ordinary trade with a price and a quantity is fed as one event: a sell
/// where the buyer made the market, else a buy. Any other trade is not fed.
pub proof fn law_trade_is_fed_once<F, P: Fn(&str) -> Option<F>>(parse: P, t: TradeModel)
    ensures
        ({
            let actions = market_data::trade_actions::<F, P>(parse, t);
            if t.type_ == "MARKET"@ && numbers::number_in(parse, t.price) is Some
                && numbers::number_in(parse, t.qty) is Some {
                &&& actions.len() == 1
                &&& actions[0] == (ActionModel::Feed {
                    symbol: t.symbol,
                    ev: if t.is_the_buyer_the_market_maker {
                        LOCAL_SELL_TRADE_EVENT
                    } else {
                        LOCAL_BUY_TRADE_EVENT
                    },
                    exch_ts: t.transaction_time * 1_000_000,
                    px: numbers::number_in(parse, t.price)->0,
                    qty: numbers::number_in(parse, t.qty)->0,
                })
            } else {
                actions.len() == 0
            }
        }),
{
}

/// A depth update changes the book of its symbol alone. It is fed whole where
/// the book takes it and not at all where the book keeps it back, behind a
/// request for a snapshot where the book asks for one.
pub proof fn law_depth_update_is_fed_or_kept<F, P: Fn(&str) -> Option<F>>(
    parse: P,
    books: Map<Seq<char>, BookModel>,
    d: DepthModel,
)
    ensures
        ({
            let (after, actions) = market_data::after_depth_update::<F, P>(parse, books, d);
            let book = if books.contains_key(d.symbol) {
                books[d.symbol]
            } else {
                orderbook::fresh_book(d.symbol)
            };
            let (next, (apply, request)) = orderbook::after_update(book, d);
            let fed = if request {
                actions.skip(1)
            } else {
                actions
            };
            &&& after == books.insert(d.symbol, next)
            &&& request ==> actions.len() > 0 && actions[0] == ActionModel::<F>::RequestSnapshot(
                d.symbol,
            )
            &&& if apply && all_numbers(parse, d.bids) && all_numbers(parse, d.asks) {
                feeds_batch(parse, fed, d.symbol, d.transaction_time, d.bids, d.asks)
            } else {
                fed.len() == 0
            }
        }),
{
    law_book_change_is_one_batch::<F, P>(parse, d.symbol, d.transaction_time, d.bids, d.asks);
    let (after, actions) = market_data::after_depth_update::<F, P>(parse, books, d);
    let (next, (apply, request)) = orderbook::after_update(
        orderbook::book_or_fresh(books, d.symbol),
        d,
    );
    let feed = if apply {
        market_data::depth_actions::<F, P>(parse, d.symbol, d.transaction_time, d.bids, d.asks)
    } else {
        Seq::empty()
    };
    if request {
        assert(actions.skip(1) =~= feed);
    } else {
        assert(actions =~= feed);
    }
}

/// A snapshot reply is handed on event by event. Another snapshot is requested
/// where the reply gave no event or the book is still out of step, and only
/// there.
pub proof fn law_reply_is_fed_in_full<F, P: Fn(&str) -> Option<F>>(
    parse: P,
    zero: F,
    books: Map<Seq<char>, BookModel>,
    symbol: Seq<char>,
    s: SnapshotModel,
)
    ensures
        ({
            let (after, actions) = market_data::after_snapshot_reply(
                parse,
                zero,
                books,
                symbol,
                s,
            );
            let book = if books.contains_key(symbol) {
                books[symbol]
            } else {
                orderbook::fresh_book(symbol)
            };
            let (next, events) = orderbook::after_snapshot(book, s);
            let fed = market_data::events_actions(parse, zero, events);
            &&& after == books.insert(symbol, next)
            &&& if events.len() == 0 || next.state == SyncState::Initializing || next.state
                == SyncState::NeedResync {
                actions == fed.push(ActionModel::RequestSnapshot(symbol))
            } else {
                actions == fed
            }
        }),
{
    let (next, events) = orderbook::after_snapshot(orderbook::book_or_fresh(books, symbol), s);
    let fed = market_data::events_actions(parse, zero, events);
    let actions = market_data::after_snapshot_reply(parse, zero, books, symbol, s).1;
    if events.len() == 0 || orderbook::wants_snapshot(next) {
        assert(actions =~= fed.push(ActionModel::RequestSnapshot(symbol)));
    } else {
        assert(actions =~= fed);
    }
}

/// Only depth updates, snapshot replies and new symbols touch the books, and
/// only a ping moves the time of the last ping.
pub proof fn law_what_an_input_leaves_alone<F, P: Fn(&str) -> Option<F>>(
    parse: P,
    zero: F,
    books: Map<Seq<char>, BookModel>,
    last_ping: u64,
    input: Input,
)
    ensures
        ({
            let next = market_data::after_input(parse, zero, books, last_ping, input);
            &&& match input {
                Input::Ping { now } => next.last_ping == now,
                _ => next.last_ping == last_ping,
            }
            &&& match input {
                Input::DepthUpdate(data) => next.books.remove(data.symbol@) == books.remove(
                    data.symbol@,
                ),
                Input::Snapshot { symbol, .. } => next.books.remove(symbol@) == books.remove(
                    symbol@,
                ),
                Input::Symbol(symbol) => next.books.remove(symbol@) == books.remove(symbol@),
                _ => next.books == books,
            }
        }),
{
    let next = market_data::after_input(parse, zero, books, last_ping, input);
    match input {
        Input::DepthUpdate(data) => {
            assert(next.books.remove(data.symbol@) =~= books.remove(data.symbol@));
        },
        Input::Snapshot { symbol, .. } => {
            assert(next.books.remove(symbol@) =~= books.remove(symbol@));
        },
        Input::Symbol(symbol) => {
            assert(next.books.remove(symbol@) =~= books.remove(symbol@));
        },
        _ => {},
    }
}

/// A connection goes on after every input but the end of the symbols, the end
/// of the stream, a close, a failure, and a check more than five minutes after
/// the last ping.
pub proof fn law_when_a_connection_ends<F, P: Fn(&str) -> Option<F>>(
    parse: P,
    zero: F,
    books: Map<Seq<char>, BookModel>,
    last_ping: u64,
    input: Input,
)
    ensures
        ({
            let outcome = market_data::after_input(parse, zero, books, last_ping, input).outcome;
            match input {
                Input::PingCheck { now } => if now > last_ping + 300_000_000_000 {
                    outcome == Err::<Seq<ActionModel<F>>, _>(EndModel::ConnectionInterrupted)
                } else {
                    outcome is Ok
                },
                Input::SymbolsClosed => outcome == Err::<Seq<ActionModel<F>>, _>(
                    EndModel::Closed,
                ),
                Input::Close(Some(reason)) => outcome == Err::<Seq<ActionModel<F>>, _>(
                    EndModel::ConnectionAbort(reason@),
                ),
                Input::Close(None) => outcome == Err::<Seq<ActionModel<F>>, _>(
                    EndModel::ConnectionAbort(Seq::empty()),
                ),
                Input::Failed(message) => outcome == Err::<Seq<ActionModel<F>>, _>(
                    EndModel::Failed(message@),
                ),
                Input::End => outcome == Err::<Seq<ActionModel<F>>, _>(
                    EndModel::ConnectionInterrupted,
                ),
                _ => outcome is Ok,
            }
        }),
{
}

/// A new symbol is subscribed to and its book starts over; a ping is answered;
/// what has no meaning calls for nothing; updates, replies and trades call for
/// what they feed.
pub proof fn law_what_an_input_calls_for<F, P: Fn(&str) -> Option<F>>(
    parse: P,
    zero: F,
    books: Map<Seq<char>, BookModel>,
    last_ping: u64,
    input: Input,
)
    ensures
        ({
            let next = market_data::after_input(parse, zero, books, last_ping, input);
            next.outcome matches Ok(actions) ==> match input {
                Input::Symbol(symbol) => {
                    &&& next.books.contains_key(symbol@)
                    &&& next.books[symbol@] == orderbook::fresh_book(symbol@)
                    &&& actions == seq![ActionModel::<F>::Subscribe(symbol@)]
                },
                Input::Ping { .. } => actions == seq![ActionModel::<F>::Pong],
                Input::DepthUpdate(data) => (next.books, actions)
                    == market_data::after_depth_update::<F, P>(parse, books, data@),
                Input::Snapshot { symbol, depth } => (next.books, actions)
                    == market_data::after_snapshot_reply(parse, zero, books, symbol@, depth@),
                Input::Trade(data) => actions == market_data::trade_actions::<F, P>(parse, data@),
                _ => actions.len() == 0,
            }
        }),
{
}

/// The subscription request of a symbol names its trades and its raw depth
/// updates, and carries the id that it was given.
pub proof fn law_subscription_names_both_streams(symbol: Seq<char>, id: Seq<char>)
    ensures
        text::holds(market_data::subscribe_text(symbol, id), symbol + "@trade\","@),
        text::holds(market_data::subscribe_text(symbol, id), symbol + "@depth@0ms\""@),
        text::holds(market_data::subscribe_text(symbol, id), id + "\""@),
{
    reveal_strlit("@trade\",");
    reveal_strlit("@depth@0ms\"");
    reveal_strlit("\"");
    reveal_strlit(
        "{\n                            \"method\": \"SUBSCRIBE\",\n                            \"params\": [\n                                \"",
    );
    reveal_strlit("@trade\",\n                                \"");
    reveal_strlit(
        "@depth@0ms\"\n                            ],\n                            \"id\": \"",
    );
    reveal_strlit("\"\n                        }");
    let whole = market_data::subscribe_text(symbol, id);
    let head =
        "{\n                            \"method\": \"SUBSCRIBE\",\n                            \"params\": [\n                                \""@;
    let trades = "@trade\",\n                                \""@;
    let depth =
        "@depth@0ms\"\n                            ],\n                            \"id\": \""@;
    let first: int = head.len() as int;
    let second: int = first + symbol.len() + trades.len();
    let third: int = second + symbol.len() + depth.len();
    let a = symbol + "@trade\","@;
    let b = symbol + "@depth@0ms\""@;
    let c = id + "\""@;
    assert(whole.subrange(first, first + a.len()) =~= a);
    assert(text::stands_at(whole, a, first));
    assert(whole.subrange(second, second + b.len()) =~= b);
    assert(text::stands_at(whole, b, second));
    assert(whole.subrange(third, third + c.len()) =~= c);
    assert(text::stands_at(whole, c, third));
}

} // verus!
