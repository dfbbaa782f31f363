//! The collector: messages, files, and the feed of a connector.

use hft_pipeline::collector::binance_um::{handle, handle_snapshot, start_books};
use hft_pipeline::collector::error::ConnectorError;
use hft_pipeline::collector::file::{is_old_file, today_stamp, FileStep, RotatingFile, Writer};
use hft_pipeline::collector::ipc::{
    handle_feed_event, is_for_collector, FeedEvent, FeedRecord, Incoming, IpcCollector,
    COLLECTOR_ID, DEPTH_BBO_EVENT,
};
use hft_pipeline::collector::run::{choose_source, should_stop, streams, Exchange, Source};
use hft_pipeline::collector::throttle::Throttler;
use hft_pipeline::connector::orderbook::OrderBookManager;
use hft_pipeline::types::{BUY_EVENT, DEPTH_EVENT, DEPTH_SNAPSHOT_EVENT, TRADE_EVENT};

const UPDATE: &str = r#"{"stream":"btcusdt@depth@0ms","data":{"e":"depthUpdate","E":1,"T":2,"s":"BTCUSDT","U":100,"u":105,"pu":99,"b":[],"a":[]}}"#;

#[test]
fn first_update_fetches_a_snapshot() {
    let mut books = start_books(&vec!["BTCUSDT".to_string()]);
    assert!(books.is_initializing("btcusdt"));
    let handled = handle(&mut books, UPDATE).unwrap().unwrap();
    assert_eq!(handled.symbol, "btcusdt");
    assert_eq!(handled.fetch, Some("BTCUSDT".to_string()));
    let again = handle(&mut books, UPDATE).unwrap().unwrap();
    assert_eq!(again.fetch, None);
    let snapshot = r#"{"lastUpdateId":102,"E":1,"T":2,"bids":[["1","2"]],"asks":[]}"#;
    assert!(handle_snapshot(&mut books, "btcusdt", snapshot).is_ok());
}

#[test]
fn other_events_are_written_only() {
    let mut books = OrderBookManager::new();
    let trade = r#"{"stream":"btcusdt@trade","data":{"e":"trade","s":"BTCUSDT"}}"#;
    let handled = handle(&mut books, trade).unwrap().unwrap();
    assert_eq!((handled.symbol.as_str(), handled.fetch), ("btcusdt", None));
    assert!(handle(&mut books, r#"{"result":null,"id":1}"#).unwrap().is_none());
    assert!(handle(&mut books, r#"{"data":{"e":"x"}}"#).unwrap().is_none());
    assert!(books.symbols_needing_snapshot().is_empty());
}

#[test]
fn malformed_messages_are_errors() {
    let mut books = OrderBookManager::new();
    assert!(matches!(handle(&mut books, "{"), Err(ConnectorError::SerdeError(_))));
    let bad = [
        r#"{"data":5}"#,
        r#"{"data":{"s":5,"e":"x"}}"#,
        r#"{"data":{"s":"BTCUSDT"}}"#,
        r#"{"data":{"s":"BTCUSDT","e":"depthUpdate","U":1,"u":2}}"#,
    ];
    for message in bad {
        assert!(matches!(handle(&mut books, message), Err(ConnectorError::FormatError)));
    }
    assert!(handle_snapshot(&mut books, "btcusdt", "[").is_err());
    assert!(handle_snapshot(&mut books, "btcusdt", "{}").is_err());
}

const DAY: i64 = 86_400_000_000_000;

#[test]
fn files_are_named_by_day() {
    let file = RotatingFile::new(0, "/data/btcusdt".to_string());
    assert_eq!(file.file_name(), "/data/btcusdt_19700101.jsonl");
    assert!(file.rotation(DAY - 1).is_none());
    let rotation = file.rotation(DAY).unwrap();
    assert_eq!(rotation.old, "/data/btcusdt_19700101.jsonl");
    assert_eq!(rotation.new, "/data/btcusdt_19700102.jsonl");
    assert_eq!(today_stamp(-1), "19691231");
    assert_eq!(today_stamp(1_700_000_000_000_000_000), "20231114");
    assert_eq!(today_stamp(i64::MIN), "16770921");
    assert_eq!(today_stamp(i64::MAX), "22620411");
}

#[test]
fn rotation_happens_once() {
    let mut file = RotatingFile::new(0, "p".to_string());
    assert!(file.rotation(5 * DAY).is_some());
    file.rotated(5 * DAY);
    assert!(file.rotation(5 * DAY + 1).is_none());
    assert_eq!(file.file_name(), "p_19700106.jsonl");
}

#[test]
fn one_file_per_symbol_and_day() {
    let mut writer = Writer::new("/data");
    assert_eq!(Writer::key("BTCUSDT"), "btcusdt");
    assert_eq!(Writer::key("\u{c4}B"), "\u{e4}b");
    match writer.prepare("btcusdt", 0) {
        FileStep::Open(name) => assert_eq!(name, "/data/btcusdt_19700101.jsonl"),
        _ => panic!("no file is open yet"),
    }
    writer.opened("btcusdt", 0);
    assert!(matches!(writer.prepare("btcusdt", DAY - 1), FileStep::Ready));
    assert!(matches!(writer.prepare("ethusdt", 0), FileStep::Open(_)));
    match writer.prepare("btcusdt", DAY) {
        FileStep::Rotate(rotation) => assert_eq!(rotation.new, "/data/btcusdt_19700102.jsonl"),
        _ => panic!("the day has changed"),
    }
}

#[test]
fn old_files_are_told_by_their_date() {
    assert!(is_old_file(Some("jsonl"), "btcusdt_20231113", "20231114"));
    assert!(!is_old_file(Some("jsonl"), "btcusdt_20231114", "20231114"));
    assert!(!is_old_file(Some("gz"), "btcusdt_20231113", "20231114"));
    assert!(!is_old_file(None, "btcusdt_20231113", "20231114"));
    assert!(!is_old_file(Some("jsonl"), "btcusdt_2023", "20231114"));
    assert!(is_old_file(Some("jsonl"), "btcusdt_20221231", "20230101"));
    assert!(!is_old_file(Some("jsonl"), "btcusdt_20231115", "20231114"));
    assert!(!is_old_file(Some("jsonl"), "btcusdt_20240101", "20231231"));
    assert!(!is_old_file(Some("jsonl"), "btcusdt_snapshot", "20231114"));
    assert!(!is_old_file(Some("jsonl"), "btcusdt_1snapsho", "20231114"));
    assert!(is_old_file(Some("jsonl"), "20231113", &today_stamp(1_700_000_000_000_000_000)));
}

fn feed(ev: u64) -> FeedEvent {
    FeedEvent { ev, exch_ts: 1_234_567_890, px: "10.5".to_string(), qty: "2".to_string() }
}

#[test]
fn feed_events_become_records() {
    let (file, record) = handle_feed_event("BtcUsdt", &feed(DEPTH_EVENT | BUY_EVENT)).unwrap();
    assert_eq!(file, "btcusdt");
    match record {
        FeedRecord::Depth { event, event_time, symbol, bids, asks } => {
            assert_eq!((event.as_str(), event_time, symbol.as_str()), ("depthUpdate", 1234, "BTCUSDT"));
            assert_eq!(bids, vec![("10.5".to_string(), "2".to_string())]);
            assert!(asks.is_empty());
        }
        _ => panic!("a depth record"),
    }
    match handle_feed_event("btcusdt", &feed(DEPTH_SNAPSHOT_EVENT)).unwrap().1 {
        FeedRecord::Depth { event, bids, asks, .. } => {
            assert_eq!((event.as_str(), bids.len(), asks.len()), ("depthSnapshot", 0, 1));
        }
        _ => panic!("a depth record"),
    }
    match handle_feed_event("btcusdt", &feed(TRADE_EVENT | BUY_EVENT)).unwrap().1 {
        FeedRecord::Trade { price, qty, is_buyer_maker, .. } => {
            assert_eq!((price.as_str(), qty.as_str(), is_buyer_maker), ("10.5", "2", false));
        }
        _ => panic!("a trade record"),
    }
    match handle_feed_event("btcusdt", &feed(DEPTH_BBO_EVENT)).unwrap().1 {
        FeedRecord::BookTicker { bid_price, bid_qty, ask_price, ask_qty, .. } => {
            assert_eq!((bid_price.as_str(), bid_qty.as_str()), ("0", "0"));
            assert_eq!((ask_price.as_str(), ask_qty.as_str()), ("10.5", "2"));
        }
        _ => panic!("a book ticker record"),
    }
    assert!(handle_feed_event("btcusdt", &feed(0x77)).is_none());
}

#[test]
fn every_thousandth_event_is_reported() {
    let mut collector = IpcCollector::new();
    for i in 1..=1000u64 {
        let event = Incoming::Feed { symbol: "btcusdt".to_string(), event: feed(TRADE_EVENT) };
        let (record, report) = collector.handle_event(&event);
        assert!(record.is_some());
        assert_eq!(report, i == 1000);
    }
    assert!(collector.handle_event(&Incoming::BatchStart).0.is_none());
    assert_eq!(collector.count(), 1000);
    assert!(is_for_collector(0));
    assert!(is_for_collector(COLLECTOR_ID));
    assert!(!is_for_collector(1));
}

#[test]
fn source_is_chosen_by_the_command_line() {
    assert_eq!(choose_source(true, "", false), Ok(Source::Connector));
    assert!(choose_source(true, "", true).unwrap_err().starts_with("At least one symbol"));
    assert_eq!(
        choose_source(false, "binancefutures", true),
        Ok(Source::Direct(Exchange::BinanceFuturesUm))
    );
    assert_eq!(choose_source(false, "kraken", true), Err("kraken is not supported.".to_string()));
    assert!(choose_source(false, "", true).unwrap_err().starts_with("Exchange name is required"));
    assert_eq!(
        streams(Exchange::BinanceFuturesUm),
        vec!["$symbol@trade", "$symbol@bookTicker", "$symbol@depth@0ms"]
    );
    assert_eq!(streams(Exchange::Bybit).len(), 4);
}

#[test]
fn collector_stops_at_its_limit() {
    assert!(!should_stop(9, None, false, false));
    assert!(should_stop(0, None, true, false));
    assert!(should_stop(0, None, false, true));
    assert!(!should_stop(999_999_999, Some(1), false, false));
    assert!(should_stop(1_000_000_000, Some(1), false, false));
    assert!(!should_stop(u64::MAX as u128, Some(u64::MAX), false, false));
}

#[test]
fn requests_are_limited_within_the_window() {
    let mut throttler = Throttler::new(2, 60);
    assert!(throttler.let_through(0));
    assert!(throttler.let_through(30));
    assert!(!throttler.let_through(59));
    assert!(throttler.let_through(60));
    assert!(!throttler.let_through(89));
    assert!(throttler.let_through(90));
    assert!(!Throttler::new(0, 60).let_through(5));
}
