//! Market data and user data streams, and requests.

use hft_pipeline::connector::backoff::ExponentialBackoff;
use hft_pipeline::connector::market_data::{
    fits_nanos, process_trade, subscribe_message, Action, Input, MarketDataStream, StreamEnd,
    PING_TIMEOUT,
};
use hft_pipeline::connector::msg::{
    from_str_to_side, from_str_to_status, from_str_to_tif, from_str_to_type, OrdType, Side, Status,
    TimeInForce,
};
use hft_pipeline::connector::papi::{
    after_cancel_all, after_request, begin_submit, connection_error, error_value,
    BinancePapiError, Config, ErrorKind, ErrorValue, LiveOrder, Published, RequestOutcome,
    SubmitStep, SymbolSet,
};
use hft_pipeline::connector::papi_rest::{
    cancel_body, get_query, get_url, modify_body, order_path, order_result, request_time,
    sign_body, signed_url, submit_body, symbol_query, OrderReply,
};
use hft_pipeline::connector::user_data::{
    position_information, process_message, OrderUpdate, ReportedPosition, UserAction,
    UserDataStream, UserEnd, UserEvent, UserInput, UserPublication,
};
use hft_pipeline::connector::{rest, stream};
use hft_pipeline::types::{
    LOCAL_ASK_DEPTH_EVENT, LOCAL_BID_DEPTH_EVENT, LOCAL_BUY_TRADE_EVENT, LOCAL_DEPTH_CLEAR_EVENT,
    LOCAL_SELL_TRADE_EVENT,
};

fn parse(s: &str) -> Option<f64> {
    s.parse().ok()
}

fn level(px: &str, qty: &str) -> Vec<(String, String)> {
    vec![(px.to_string(), qty.to_string())]
}

fn update(first: i64, last: i64, prev: i64) -> stream::Depth {
    stream::Depth {
        event_time: 7,
        transaction_time: 8,
        symbol: "btcusdt".to_string(),
        first_update_id: first,
        last_update_id: last,
        prev_update_id: prev,
        bids: level("10.0", "1.0"),
        asks: level("11.0", "2.0"),
    }
}

fn snapshot(last_update_id: i64) -> rest::Depth {
    rest::Depth {
        last_update_id,
        event_time: 5,
        transaction_time: 6,
        bids: level("9.0", "3.0"),
        asks: level("12.0", "4.0"),
    }
}

fn kinds(actions: &[Action<f64>]) -> Vec<(String, u64, i64, f64)> {
    actions
        .iter()
        .map(|a| match a {
            Action::RequestSnapshot(s) => (format!("request {s}"), 0, 0, 0.0),
            Action::BatchStart => ("start".to_string(), 0, 0, 0.0),
            Action::BatchEnd => ("end".to_string(), 0, 0, 0.0),
            Action::Feed { symbol, ev, exch_ts, px, .. } => (symbol.clone(), *ev, *exch_ts, *px),
            Action::Subscribe(s) => (format!("subscribe {s}"), 0, 0, 0.0),
            Action::Pong => ("pong".to_string(), 0, 0, 0.0),
        })
        .collect()
}

fn plain(name: &str) -> (String, u64, i64, f64) {
    (name.to_string(), 0, 0, 0.0)
}

fn fed(ev: u64, exch_ts: i64, px: f64) -> (String, u64, i64, f64) {
    ("btcusdt".to_string(), ev, exch_ts, px)
}

#[test]
fn book_is_cleared_filled_and_kept_up_to_date() {
    let mut stream = MarketDataStream::new();
    let actions = stream.step(&Input::Symbol("btcusdt".to_string()), &parse, 0.0).unwrap();
    assert_eq!(kinds(&actions), vec![plain("subscribe btcusdt")]);
    let actions = stream.process_depth_update(&update(100, 105, 99), &parse);
    assert_eq!(kinds(&actions), vec![plain("request btcusdt")]);
    let actions = stream.process_snapshot("btcusdt", &snapshot(102), &parse, 0.0);
    assert_eq!(
        kinds(&actions),
        vec![
            plain("start"),
            fed(LOCAL_DEPTH_CLEAR_EVENT, 6_000_000, 0.0),
            plain("end"),
            plain("start"),
            fed(LOCAL_BID_DEPTH_EVENT, 6_000_000, 9.0),
            fed(LOCAL_ASK_DEPTH_EVENT, 6_000_000, 12.0),
            plain("end"),
            plain("start"),
            fed(LOCAL_BID_DEPTH_EVENT, 8_000_000, 10.0),
            fed(LOCAL_ASK_DEPTH_EVENT, 8_000_000, 11.0),
            plain("end"),
        ]
    );
    let actions = stream.step(&Input::DepthUpdate(update(106, 110, 105)), &parse, 0.0).unwrap();
    assert_eq!(actions.len(), 4);
    stream.connected(1);
    let actions = stream.process_depth_update(&update(111, 112, 110), &parse);
    assert_eq!(kinds(&actions), vec![plain("request btcusdt")]);
}

#[test]
fn gap_asks_for_another_snapshot() {
    let mut stream = MarketDataStream::new();
    stream.process_depth_update(&update(110, 115, 109), &parse);
    let actions = stream.process_snapshot("btcusdt", &snapshot(100), &parse, 0.0);
    assert_eq!(kinds(&actions), vec![plain("request btcusdt")]);
}

#[test]
fn levels_that_are_no_numbers_are_not_fed() {
    let mut stream = MarketDataStream::new();
    stream.process_snapshot("btcusdt", &snapshot(100), &parse, 0.0);
    let mut bad = update(99, 105, 98);
    bad.bids = level("ten", "1.0");
    assert!(stream.process_depth_update(&bad, &parse).is_empty());
}

fn trade(kind: &str, maker: bool) -> stream::Trade {
    stream::Trade {
        symbol: "btcusdt".to_string(),
        transaction_time: 3,
        price: "10.5".to_string(),
        qty: "1".to_string(),
        type_: kind.to_string(),
        is_the_buyer_the_market_maker: maker,
    }
}

#[test]
fn market_trades_are_fed() {
    let actions = process_trade(&trade("MARKET", true), &parse);
    assert_eq!(kinds(&actions), vec![fed(LOCAL_SELL_TRADE_EVENT, 3_000_000, 10.5)]);
    let actions = process_trade(&trade("MARKET", false), &parse);
    assert_eq!(kinds(&actions), vec![fed(LOCAL_BUY_TRADE_EVENT, 3_000_000, 10.5)]);
    assert!(process_trade(&trade("INSURANCE_FUND", true), &parse).is_empty());
    assert!(fits_nanos(9223372036854));
    assert!(!fits_nanos(9223372036855));
}

#[test]
fn connection_ends_for_a_reason() {
    let mut stream = MarketDataStream::new();
    stream.connected(1000);
    let mut end = |input: Input| stream.step::<f64, _>(&input, &parse, 0.0);
    assert!(end(Input::PingCheck { now: 1000 + PING_TIMEOUT }).unwrap().is_empty());
    assert!(matches!(
        end(Input::PingCheck { now: 1001 + PING_TIMEOUT }),
        Err(StreamEnd::ConnectionInterrupted)
    ));
    assert_eq!(kinds(&end(Input::Ping { now: 2000 }).unwrap()), vec![plain("pong")]);
    assert!(end(Input::PingCheck { now: 1001 + PING_TIMEOUT }).is_ok());
    assert!(end(Input::SymbolsLagged).unwrap().is_empty());
    assert!(end(Input::Ignored).unwrap().is_empty());
    assert!(matches!(end(Input::SymbolsClosed), Err(StreamEnd::Closed)));
    assert!(matches!(
        end(Input::Failed("reset".to_string())),
        Err(StreamEnd::Failed(m)) if m == "reset"
    ));
    assert!(matches!(end(Input::End), Err(StreamEnd::ConnectionInterrupted)));
    match end(Input::Close(Some("bye".to_string()))) {
        Err(StreamEnd::ConnectionAbort(reason)) => assert_eq!(reason, "bye"),
        _ => panic!("the server closed"),
    }
}

#[test]
fn subscription_names_both_streams() {
    let message = subscribe_message("btcusdt", "abc");
    let v: serde_json::Value = serde_json::from_str(&message).unwrap();
    assert_eq!(v["method"], "SUBSCRIBE");
    assert_eq!(v["params"][0], "btcusdt@trade");
    assert_eq!(v["params"][1], "btcusdt@depth@0ms");
    assert_eq!(v["id"], "abc");
}

#[test]
fn words_are_read() {
    assert_eq!(from_str_to_side("BUY"), Ok(Side::Buy));
    assert_eq!(from_str_to_side("buy"), Err("BUY or SELL".to_string()));
    assert_eq!(from_str_to_status("PARTIALLY_FILLED"), Ok(Status::PartiallyFilled));
    assert!(from_str_to_status("").is_err());
    assert_eq!(from_str_to_type("MARKET"), Ok(OrdType::Market));
    assert_eq!(from_str_to_type("STOP"), Err("LIMIT,MARKET".to_string()));
    assert_eq!(from_str_to_tif("GTX"), Ok(TimeInForce::GTX));
    assert_eq!(from_str_to_tif("DAY"), Err("GTC,IOC,FOK,GTX".to_string()));
}

fn config(stream_url: &str, user_stream_url: &str) -> Config {
    Config {
        api_url: "https://api".to_string(),
        stream_url: stream_url.to_string(),
        user_stream_url: user_stream_url.to_string(),
        order_prefix: "p".to_string(),
        api_key: "k".to_string(),
        secret: String::new(),
    }
}

#[test]
fn user_stream_is_made_of_the_market_stream() {
    let made = config("wss://host/ws/", "");
    assert_eq!(made.user_stream_base(), "wss://host/pm/ws");
    assert_eq!(made.user_stream("key"), "wss://host/pm/ws/key");
    assert_eq!(config("wss://host/ws", "wss://user//").user_stream("key"), "wss://user/key");
    let base = |url: &str| config(url, "").user_stream_base();
    assert_eq!(base("wss://fstream.binance.com/ws"), "wss://fstream.binance.com/pm/ws");
    assert_eq!(base("wss://ws.host/ws"), "wss://ws.host/pm/ws");
    assert_eq!(base("wss://ws.host:443/v1/ws/"), "wss://ws.host:443/v1/pm/ws");
    assert_eq!(base("wss://ws.host"), "wss://ws.host");
    assert_eq!(base("host:80/ws"), "host:80/pm/ws");
    assert_eq!(base(""), "");
    assert!(!made.has_credentials());
}

#[test]
fn symbols_are_registered_once() {
    let mut symbols = SymbolSet::new();
    assert_eq!(symbols.register("BTCUSDT"), Some("btcusdt".to_string()));
    assert_eq!(symbols.register("btcusdt"), None);
    assert_eq!(symbols.register("\u{c4}"), Some("\u{e4}".to_string()));
}

#[test]
fn errors_are_published_as_values() {
    let text = |e: BinancePapiError| match error_value(e) {
        ErrorValue::Text(t) => t,
        _ => panic!("a text"),
    };
    assert_eq!(text(BinancePapiError::InstrumentNotFound), "InstrumentNotFound");
    assert_eq!(text(BinancePapiError::InvalidRequest), "InvalidRequest");
    assert_eq!(text(BinancePapiError::ListenKeyExpired), "ListenKeyExpired");
    assert_eq!(text(BinancePapiError::ConnectionInterrupted), "ConnectionInterrupted");
    assert_eq!(text(BinancePapiError::ConnectionAbort("x".to_string())), "ConnectionAbort: x");
    assert_eq!(text(BinancePapiError::PrefixUnmatched), "PrefixUnmatched");
    assert_eq!(text(BinancePapiError::OrderNotFound), "OrderNotFound");
    assert_eq!(text(BinancePapiError::Tunstenite("t".to_string())), "t");
    assert_eq!(text(BinancePapiError::Config("c".to_string())), "Config: c");
    let refused = BinancePapiError::OrderError { code: -5, msg: "m".to_string() };
    assert!(matches!(error_value(refused), ErrorValue::Order { code: -5, msg } if msg == "m"));
    let failed = BinancePapiError::ReqError { status: None, msg: "m".to_string() };
    assert!(matches!(error_value(failed), ErrorValue::Request { status_code: None, msg } if msg == "m"));
}

#[test]
fn requests_are_written() {
    assert_eq!(request_time(5000), 4000);
    assert_eq!(get_query("", 7), "recvWindow=5000&timestamp=7");
    assert_eq!(get_query("a=b", 7), "a=b&recvWindow=5000&timestamp=7");
    assert_eq!(get_url("u", order_path(), "q", "s"), "u/papi/v1/um/order?q&signature=s");
    assert_eq!(sign_body(7, "b"), "recvWindow=5000&timestamp=7b");
    assert_eq!(
        signed_url("u", "/p", 7, "s"),
        "u/p?recvWindow=5000&timestamp=7&signature=s"
    );
    assert_eq!(
        submit_body("id", "BTCUSDT", "BUY", "1.5", "2.0", "LIMIT", "GTX"),
        "newClientOrderId=id&symbol=BTCUSDT&side=BUY&price=1.5&quantity=2.0&type=LIMIT&timeInForce=GTX"
    );
    assert_eq!(
        modify_body("id", "BTCUSDT", "BUY", "1.5", "2.0"),
        "symbol=BTCUSDT&origClientOrderId=id&side=BUY&price=1.5&quantity=2.0"
    );
    assert_eq!(cancel_body("id", "BTCUSDT"), "symbol=BTCUSDT&origClientOrderId=id");
    assert_eq!(symbol_query("BTCUSDT"), "symbol=BTCUSDT");
}

#[test]
fn replies_are_taken() {
    assert_eq!(order_result(OrderReply::Accepted(5)).unwrap(), 5);
    let refused: OrderReply<i32> = OrderReply::Refused { code: 1, msg: "no".to_string() };
    assert!(matches!(order_result(refused), Err(BinancePapiError::OrderError { code: 1, .. })));
}

fn live_order() -> LiveOrder<f64> {
    LiveOrder {
        order_id: 9,
        side: Side::Buy,
        price_tick: 100,
        tick_size: 0.1,
        qty: 2.0,
        order_type: OrdType::Limit,
        time_in_force: TimeInForce::GTX,
        req: Status::New,
        status: Status::Idle,
    }
}

#[test]
fn orders_are_sent_or_expire() {
    match begin_submit("btcusdt".to_string(), live_order(), Some("p9".to_string())) {
        SubmitStep::Send { client_order_id, order } => {
            assert_eq!((client_order_id.as_str(), order.order_id, order.req), ("p9", 9, Status::New));
        }
        SubmitStep::Publish(_) => panic!("the order can be sent"),
    }
    match begin_submit("btcusdt".to_string(), live_order(), None) {
        SubmitStep::Publish(Published::Order { symbol, order }) => {
            assert_eq!((symbol.as_str(), order.order_id), ("btcusdt", 9));
            assert_eq!((order.req, order.status), (Status::Idle, Status::Expired));
        }
        _ => panic!("the order has expired"),
    }
}

#[test]
fn requests_are_followed_by_publications() {
    let failed =
        RequestOutcome::Failed { order: Some(1), error: BinancePapiError::OrderNotFound };
    let published = after_request("btcusdt".to_string(), failed);
    assert_eq!(published.len(), 2);
    assert!(matches!(&published[0], Published::Order { symbol, order: 1 } if symbol == "btcusdt"));
    assert!(matches!(
        &published[1],
        Published::Error { kind: ErrorKind::OrderError, value: ErrorValue::Text(t) }
            if t == "OrderNotFound"
    ));
    let forgotten: RequestOutcome<i32> = RequestOutcome::Accepted(None);
    assert!(after_request("btcusdt".to_string(), forgotten).is_empty());
    assert_eq!(after_request("btcusdt".to_string(), RequestOutcome::Accepted(Some(4))).len(), 1);
    let cancelled = after_cancel_all("btcusdt", vec![5, 6]);
    assert!(matches!(&cancelled[1], Published::Order { symbol, order: 6 } if symbol == "btcusdt"));
    assert_eq!(cancelled.len(), 2);
    assert!(matches!(
        connection_error::<i32>(BinancePapiError::ListenKeyExpired),
        Published::Error { kind: ErrorKind::ConnectionInterrupted, .. }
    ));
}

#[test]
fn every_symbol_gets_a_position() {
    let reports = vec![ReportedPosition {
        symbol: "ethusdt".to_string(),
        position_amount: 2.0,
        update_time: 3,
    }];
    let symbols = vec!["btcusdt".to_string(), "ethusdt".to_string()];
    let positions = position_information(&reports, &symbols, 0.0);
    let rows: Vec<(String, f64)> = positions.iter().map(|p| (p.symbol.clone(), p.qty)).collect();
    assert!(rows.contains(&("ethusdt".to_string(), 2.0)), "{rows:?}");
    assert!(rows.contains(&("btcusdt".to_string(), 0.0)), "{rows:?}");
    assert_eq!(rows.len(), 2);
}

#[test]
fn account_messages_are_published() {
    let event: UserEvent<f64, i32> = UserEvent::AccountUpdate {
        transaction_time: 2,
        positions: vec![("btcusdt".to_string(), 1.5)],
    };
    match &process_message(event).unwrap()[0] {
        UserPublication::Position(p) => {
            assert_eq!((p.symbol.as_str(), p.qty, p.exch_ts), ("btcusdt", 1.5, 2_000_000));
        }
        UserPublication::Order { .. } => panic!("a position"),
    }
    assert!(process_message::<f64, i32>(UserEvent::ListenKeyExpired).is_none());
    assert!(process_message::<f64, i32>(UserEvent::TradeLite).unwrap().is_empty());
    let order = |update: OrderUpdate<i32>| -> usize {
        process_message::<f64, i32>(UserEvent::OrderTradeUpdate {
            symbol: "btcusdt".to_string(),
            update,
        })
        .unwrap()
        .len()
    };
    assert_eq!(order(OrderUpdate::Updated(1)), 1);
    assert_eq!(order(OrderUpdate::Gone), 0);
    assert_eq!(order(OrderUpdate::PrefixUnmatched), 0);
    assert_eq!(order(OrderUpdate::Failed), 0);
}

#[test]
fn user_stream_cancels_and_ends() {
    let mut stream = UserDataStream::new(10);
    let actions: Vec<UserAction<f64, i32>> = stream.on_connect(&vec!["btcusdt".to_string()]);
    assert!(matches!(&actions[0], UserAction::CancelAll(s) if s == "btcusdt"));
    assert!(matches!(actions[1], UserAction::FetchPositions));
    let mut end = |input: UserInput<f64, i32>| stream.step(input);
    let actions = end(UserInput::KeepaliveTick).unwrap();
    assert!(matches!(actions[0], UserAction::CollectGarbage));
    assert!(matches!(actions[1], UserAction::Keepalive));
    assert!(matches!(
        end(UserInput::PingCheck { now: 11 + PING_TIMEOUT }),
        Err(UserEnd::ConnectionInterrupted)
    ));
    assert!(matches!(end(UserInput::Ping { now: 11 }).unwrap()[0], UserAction::Pong));
    assert!(end(UserInput::PingCheck { now: 11 + PING_TIMEOUT }).unwrap().is_empty());
    assert!(matches!(&end(UserInput::Symbol("x".to_string())).unwrap()[0], UserAction::CancelAll(_)));
    assert!(matches!(
        end(UserInput::Event(UserEvent::ListenKeyExpired)),
        Err(UserEnd::ListenKeyExpired)
    ));
    assert!(matches!(end(UserInput::SymbolsClosed), Err(UserEnd::Closed)));
    assert!(matches!(end(UserInput::Close(None)), Err(UserEnd::ConnectionAbort(r)) if r.is_empty()));
    assert!(matches!(
        end(UserInput::Failed("reset".to_string())),
        Err(UserEnd::Failed(m)) if m == "reset"
    ));
    assert!(matches!(end(UserInput::End), Err(UserEnd::ConnectionInterrupted)));
}

#[test]
fn delays_double_up_to_a_minute_and_start_anew() {
    let mut backoff = ExponentialBackoff::default();
    let mut now = 5;
    let mut delays = Vec::new();
    for _ in 0..12 {
        let delay = backoff.backoff(now);
        delays.push(delay);
        now += delay;
    }
    assert_eq!(
        delays,
        vec![100, 200, 400, 800, 1600, 3200, 6400, 12800, 25600, 51200, 60000, 60000]
    );
    let last = now - 60_000;
    assert_eq!(backoff.backoff(last + 300_000), 60_000);
    assert_eq!(backoff.backoff(last + 600_001), 100);
    assert_eq!(backoff.backoff(last + 600_001), 200);
}
