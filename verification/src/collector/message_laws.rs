//! What is collected: how messages and feed events are taken, which file they
//! go to, and how often snapshots are asked for.

use vstd::prelude::*;

use crate::clock;
use crate::collector::binance_um;
use crate::collector::binance_um::{Handled, Handling, MessageFields, MessageModel};
use crate::collector::file;
use crate::collector::ipc;
use crate::collector::ipc::{FeedModel, FeedRecord, RecordModel};
use crate::collector::run;
use crate::collector::run::Exchange;
use crate::collector::throttle;
use crate::connector::orderbook;
use crate::connector::orderbook::BookModel;
use crate::connector::stream::DepthModel;
use crate::json;
use crate::json::{JsonLeaf, LeafModel};
use crate::text;
use crate::text_laws;

verus! {

/// A leaf, the fields of a message and what is to be done about it are taken
/// as they stand.
pub proof fn law_fields_are_taken_whole(leaf: JsonLeaf, m: MessageFields, h: Handled)
    ensures
        leaf@.present == leaf.present,
        leaf@.is_object == leaf.is_object,
        leaf@.int == leaf.int,
        leaf.text is None ==> leaf@.text is None,
        leaf.text is Some ==> leaf@.text == Some(leaf.text->0@),
        m@.data == m.data@,
        m@.symbol == m.symbol@,
        m@.event == m.event@,
        m@.transaction_time == m.transaction_time@,
        m@.event_time == m.event_time@,
        m@.first_update_id == m.first_update_id@,
        m@.last_update_id == m.last_update_id@,
        m@.prev_update_id == m.prev_update_id@,
        h@.symbol == h.symbol@,
        h.fetch is None ==> h@.fetch is None,
        h.fetch is Some ==> h@.fetch == Some(h.fetch->0@),
{
}

/// The fields of a message are read at these places of its text.
pub proof fn law_places_of_the_fields(message: Seq<char>)
    ensures
        ({
            let m = binance_um::message_of(message);
            &&& m.data.present == json::json_present(message, "/data"@)
            &&& m.data.is_object == json::json_object(message, "/data"@)
            &&& m.symbol.present == json::json_present(message, "/data/s"@)
            &&& m.symbol.text == json::json_string(message, "/data/s"@)
            &&& m.event.text == json::json_string(message, "/data/e"@)
            &&& m.transaction_time.int == json::json_integer(message, "/data/T"@)
            &&& m.event_time.int == json::json_integer(message, "/data/E"@)
            &&& m.first_update_id.int == json::json_integer(message, "/data/U"@)
            &&& m.last_update_id.int == json::json_integer(message, "/data/u"@)
            &&& m.prev_update_id.int == json::json_integer(message, "/data/pu"@)
        }),
{
}

/// A message without data, or whose data names no symbol, is passed over.
pub proof fn law_message_without_symbol_is_passed_over(
    books: Map<Seq<char>, BookModel>,
    m: MessageModel,
)
    ensures
        binance_um::handling(books, m) is Nothing == (!m.data.present || (m.data.is_object
            && !m.symbol.present)),
{
}

/// A message is refused where its data is no object, its symbol or its kind is
/// no text, or it is a depth update without one of its ids.
pub proof fn law_when_a_message_is_refused(books: Map<Seq<char>, BookModel>, m: MessageModel)
    ensures
        binance_um::handling(books, m) is Malformed == (m.data.present && (!m.data.is_object || (
        m.symbol.present && (m.symbol.text is None || m.event.text is None || (m.event.text->0
            == "depthUpdate"@ && (m.first_update_id.int is None || m.last_update_id.int is None
            || m.prev_update_id.int is None)))))),
{
}

/// Every other message is written under its symbol in lower case. A depth
/// update goes to the book of that symbol with its ids and times, and a
/// snapshot is fetched, for the symbol as the message names it, exactly where
/// the book asks for one. Any other message leaves all books as they are.
pub proof fn law_how_a_message_is_written(books: Map<Seq<char>, BookModel>, m: MessageModel)
    ensures
        match binance_um::handling(books, m) {
            Handling::Write { handled, books: after } => {
                let name = m.symbol.text->0;
                let key = text::in_lower_case(name);
                let d = DepthModel {
                    event_time: if m.event_time.int is Some {
                        m.event_time.int->0
                    } else {
                        0
                    },
                    transaction_time: if m.transaction_time.int is Some {
                        m.transaction_time.int->0
                    } else {
                        0
                    },
                    symbol: key,
                    first_update_id: m.first_update_id.int->0,
                    last_update_id: m.last_update_id.int->0,
                    prev_update_id: m.prev_update_id.int->0,
                    bids: Seq::empty(),
                    asks: Seq::empty(),
                };
                let book = if books.contains_key(key) {
                    books[key]
                } else {
                    orderbook::fresh_book(key)
                };
                let (next, (_, wanted)) = orderbook::after_update(book, d);
                &&& handled.symbol == key
                &&& if m.event.text->0 == "depthUpdate"@ {
                    &&& after == books.insert(key, next)
                    &&& wanted ==> handled.fetch == Some(name)
                    &&& !wanted ==> handled.fetch is None
                } else {
                    &&& after == books
                    &&& handled.fetch is None
                }
            },
            _ => true,
        },
{
}

/// A snapshot reply needs its update id, and its times count as 0 where they
/// are missing.
pub proof fn law_what_a_snapshot_reply_says(id: LeafModel, event: LeafModel, time: LeafModel)
    ensures
        binance_um::snapshot_in(id, event, time) is Some == id.int is Some,
        id.int is Some ==> {
            let s = binance_um::snapshot_in(id, event, time)->0;
            &&& s.last_update_id == id.int->0
            &&& s.event_time == (if event.int is Some {
                event.int->0
            } else {
                0
            })
            &&& s.transaction_time == (if time.int is Some {
                time.int->0
            } else {
                0
            })
            &&& s.bids.len() == 0
            &&& s.asks.len() == 0
        },
{
}

/// Milliseconds are the nanoseconds with what is left of a millisecond cut off.
pub proof fn law_whole_millis(nanos: i64)
    ensures
        ({
            let r = ipc::whole_millis(nanos);
            &&& nanos >= 0 ==> r >= 0 && r * 1_000_000 <= nanos < (r + 1) * 1_000_000
            &&& nanos < 0 ==> r <= 0 && (r - 1) * 1_000_000 < nanos <= r * 1_000_000
        }),
{
}

/// Feed records are taken as they stand.
pub proof fn law_records_are_taken_whole(r: FeedRecord)
    ensures
        match r {
            FeedRecord::Depth { event, event_time, symbol, bids, asks } => r@ == (
            RecordModel::Depth {
                event: event@,
                event_time: event_time as int,
                symbol: symbol@,
                bids: bids@.map_values(|l: (String, String)| (l.0@, l.1@)),
                asks: asks@.map_values(|l: (String, String)| (l.0@, l.1@)),
            }),
            FeedRecord::Trade { event_time, symbol, price, qty, is_buyer_maker } => r@ == (
            RecordModel::Trade {
                event_time: event_time as int,
                symbol: symbol@,
                price: price@,
                qty: qty@,
                is_buyer_maker,
            }),
            FeedRecord::BookTicker {
                event_time,
                symbol,
                bid_price,
                bid_qty,
                ask_price,
                ask_qty,
            } => r@ == (RecordModel::BookTicker {
                event_time: event_time as int,
                symbol: symbol@,
                bid_price: bid_price@,
                bid_qty: bid_qty@,
                ask_price: ask_price@,
                ask_qty: ask_qty@,
            }),
        },
{
    match r {
        FeedRecord::Depth { bids, asks, .. } => {
            assert(text::levels_view(bids@) =~= bids@.map_values(
                |l: (String, String)| (l.0@, l.1@),
            ));
            assert(text::levels_view(asks@) =~= asks@.map_values(
                |l: (String, String)| (l.0@, l.1@),
            ));
        },
        _ => {},
    }
}

/// The lowest byte of an event says what is recorded of it: a depth change, a
/// trade, a snapshot entry, a change of the best prices, or nothing.
pub proof fn law_kind_of_a_record(symbol: Seq<char>, e: FeedModel)
    ensures
        match ipc::record_of(symbol, e) {
            Some(RecordModel::Depth { event, .. }) => {
                ||| e.ev & 0xFF == 1 && event == "depthUpdate"@
                ||| e.ev & 0xFF == 4 && event == "depthSnapshot"@
            },
            Some(RecordModel::Trade { .. }) => e.ev & 0xFF == 2,
            Some(RecordModel::BookTicker { .. }) => e.ev & 0xFF == 5,
            None => e.ev & 0xFF != 1 && e.ev & 0xFF != 2 && e.ev & 0xFF != 4 && e.ev & 0xFF != 5,
        },
{
}

/// A record carries the symbol in upper case, the time in milliseconds, and
/// price and quantity of the event on the side that the event is on; there is
/// nothing, or a zero, on the other side. The buyer made the market where a
/// trade is on the sell side.
pub proof fn law_record_says_what_the_event_says(symbol: Seq<char>, e: FeedModel)
    ensures
        ({
            let buy = e.ev & 0x2000_0000 != 0;
            match ipc::record_of(symbol, e) {
                Some(RecordModel::Depth { event_time, symbol: name, bids, asks, .. }) => {
                    &&& event_time == ipc::whole_millis(e.exch_ts)
                    &&& name == text::in_upper_case(symbol)
                    &&& buy ==> bids == seq![(e.px, e.qty)] && asks.len() == 0
                    &&& !buy ==> asks == seq![(e.px, e.qty)] && bids.len() == 0
                },
                Some(
                    RecordModel::Trade { event_time, symbol: name, price, qty, is_buyer_maker },
                ) => {
                    &&& event_time == ipc::whole_millis(e.exch_ts)
                    &&& name == text::in_upper_case(symbol)
                    &&& price == e.px
                    &&& qty == e.qty
                    &&& is_buyer_maker == !buy
                },
                Some(
                    RecordModel::BookTicker {
                        event_time,
                        symbol: name,
                        bid_price,
                        bid_qty,
                        ask_price,
                        ask_qty,
                    },
                ) => {
                    &&& event_time == ipc::whole_millis(e.exch_ts)
                    &&& name == text::in_upper_case(symbol)
                    &&& buy ==> bid_price == e.px && bid_qty == e.qty && ask_price == "0"@
                        && ask_qty == "0"@
                    &&& !buy ==> ask_price == e.px && ask_qty == e.qty && bid_price == "0"@
                        && bid_qty == "0"@
                },
                None => true,
            }
        }),
{
}

/// The requests that still count are those of less than a window ago, all of
/// them.
pub proof fn law_recent_requests_count(times: Seq<u64>, now: u64, window: u64)
    ensures
        throttle::recent(times, now, window) == times.filter(|t: u64| now - t < window),
    decreases times.len(),
{
    reveal(Seq::filter);
    if times.len() > 0 {
        law_recent_requests_count(times.drop_last(), now, window);
    }
}

/// The file of a day stands under the path of its symbol and carries the day.
pub proof fn law_name_of_a_daily_file(directory: Seq<char>, key: Seq<char>, day: int)
    ensures
        file::jsonl_name(file::symbol_path(directory, key), day) == directory + "/"@ + key + "_"@
            + clock::day_stamp(day) + ".jsonl"@,
{
}

/// A line of a collected file is the timestamp in decimal, a space, and the
/// data as it came.
pub proof fn law_line_of_a_file(nanos: i64, data: Seq<char>)
    ensures
        file::line_text(nanos, data) == text::int_text(nanos as int) + seq![' '] + data,
{
    reveal_strlit(" ");
    assert(" "@ =~= seq![' ']);
}

/// A file whose name does not end in eight digits behind its last `_` is never
/// one of a past day.
pub proof fn law_other_files_are_left_alone(
    path: Seq<char>,
    rest: Seq<char>,
    today: Seq<char>,
)
    requires
        !rest.contains('_'),
        rest.len() != 8 || exists|i: int|
            0 <= i < rest.len() && !('0' <= #[trigger] rest[i] && rest[i] <= '9'),
    ensures
        !file::has_past_date(path + "_"@ + rest, today),
{
    reveal_strlit("_");
    let stem = path + "_"@ + rest;
    assert(stem =~= path.push('_') + rest);
    assert forall|i: int| 0 <= i < rest.len() implies rest[i] != '_' by {
        if rest[i] == '_' {
            assert(rest.contains('_'));
        }
    }
    text_laws::lemma_split_push(path, rest, '_');
    if rest.len() == 8 {
        let i = choose|i: int|
            0 <= i < rest.len() && !('0' <= #[trigger] rest[i] && rest[i] <= '9');
        assert(text::digit(rest[i]) is None);
    }
}

/// The names of the exchanges on the command line; no other name is known.
pub proof fn law_names_of_exchanges(name: Seq<char>)
    ensures
        (run::exchange_named(name) == Some(Exchange::BinanceFuturesUm)) == (name
            == "binancefutures"@ || name == "binancefuturesum"@),
        (run::exchange_named(name) == Some(Exchange::BinanceFuturesCm)) == (name
            == "binancefuturescm"@),
        (run::exchange_named(name) == Some(Exchange::BinanceSpot)) == (name == "binance"@ || name
            == "binancespot"@),
        (run::exchange_named(name) == Some(Exchange::Bybit)) == (name == "bybit"@),
        (run::exchange_named(name) == Some(Exchange::Hyperliquid)) == (name == "hyperliquid"@),
{
    reveal_strlit("binancefutures");
    reveal_strlit("binancefuturesum");
    reveal_strlit("binancefuturescm");
    reveal_strlit("binance");
    reveal_strlit("binancespot");
    reveal_strlit("bybit");
    reveal_strlit("hyperliquid");
    assert("binancefutures"@.len() == 14);
    assert("binancefuturesum"@.len() == 16 && "binancefuturesum"@[14] == 'u');
    assert("binancefuturescm"@.len() == 16 && "binancefuturescm"@[14] == 'c');
    assert("binance"@.len() == 7);
    assert("binancespot"@.len() == 11 && "binancespot"@[0] == 'b');
    assert("bybit"@.len() == 5);
    assert("hyperliquid"@.len() == 11 && "hyperliquid"@[0] == 'h');
}

/// From every exchange trades, best prices and depth are collected; both
/// futures exchanges have the same streams, the spot exchange a slower depth.
pub proof fn law_streams_of_an_exchange()
    ensures
        run::streams_of(Exchange::BinanceFuturesUm) == run::streams_of(
            Exchange::BinanceFuturesCm,
        ),
        run::streams_of(Exchange::BinanceFuturesUm) == run::streams_of(
            Exchange::BinanceSpot,
        ).update(2, "$symbol@depth@0ms"@),
        run::streams_of(Exchange::BinanceSpot) == seq![
            "$symbol@trade"@,
            "$symbol@bookTicker"@,
            "$symbol@depth@100ms"@,
        ],
        run::streams_of(Exchange::Bybit) == seq![
            "orderbook.1.$symbol"@,
            "orderbook.50.$symbol"@,
            "orderbook.500.$symbol"@,
            "publicTrade.$symbol"@,
        ],
        run::streams_of(Exchange::Hyperliquid) == seq!["trades"@, "l2Book"@, "bbo"@],
{
    assert(run::streams_of(Exchange::BinanceFuturesUm) =~= run::streams_of(
        Exchange::BinanceSpot,
    ).update(2, "$symbol@depth@0ms"@));
}

} // verus!
