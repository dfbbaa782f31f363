//! Conversion of collected files into CSV rows.

use hft_pipeline::collector::file::format_line;
use hft_pipeline::data::collector::{
    convert_to_tardis_csv, depth_header, extract_symbol, parse_line, snapshot_symbol,
    trades_header, CollectorConvertConfig, CollectorFile, ConversionStats, CsvRows, Decoders,
    DepthData, SnapshotData, StreamMessage, TradeData,
};
use hft_pipeline::data::tardis::{detect_file_type, parse_depth_record, parse_trade_record, FileType};
use serde_json::Value;

fn parse(s: &str) -> Option<f64> {
    s.parse().ok()
}

fn text(v: &Value, key: &str) -> Option<String> {
    Some(v.get(key)?.as_str()?.to_string())
}

fn integer(v: &Value, key: &str) -> Option<i64> {
    v.get(key)?.as_i64()
}

fn levels(v: &Value, key: &str) -> Option<Vec<(String, String)>> {
    let mut r = Vec::new();
    for level in v.get(key)?.as_array()? {
        r.push((level.get(0)?.as_str()?.to_string(), level.get(1)?.as_str()?.to_string()));
    }
    Some(r)
}

fn stream(s: &str) -> Option<StreamMessage<Value>> {
    let v: Value = serde_json::from_str(s).ok()?;
    Some(StreamMessage { stream: text(&v, "stream")?, data: v.get("data")?.clone() })
}

fn trade(v: &Value) -> Option<TradeData> {
    Some(TradeData {
        event_time: integer(v, "E")?,
        symbol: text(v, "s")?,
        id: integer(v, "t")?,
        price: text(v, "p")?,
        qty: text(v, "q")?,
        is_buyer_maker: v.get("m")?.as_bool()?,
    })
}

fn depth(v: &Value) -> Option<DepthData> {
    Some(DepthData {
        event_time: integer(v, "E")?,
        symbol: text(v, "s")?,
        bids: levels(v, "b")?,
        asks: levels(v, "a")?,
    })
}

fn snapshot(s: &str) -> Option<SnapshotData> {
    let v: Value = serde_json::from_str(s).ok()?;
    Some(SnapshotData {
        last_update_id: integer(&v, "lastUpdateId")?,
        event_time: integer(&v, "E")?,
        transaction_time: integer(&v, "T")?,
        bids: levels(&v, "bids")?,
        asks: levels(&v, "asks")?,
    })
}

type Stream = fn(&str) -> Option<StreamMessage<Value>>;
type Trade = fn(&Value) -> Option<TradeData>;
type Depth = fn(&Value) -> Option<DepthData>;
type Snapshot = fn(&str) -> Option<SnapshotData>;

fn decoders() -> Decoders<Stream, Trade, Depth, Snapshot> {
    Decoders {
        stream: stream as Stream,
        trade: trade as Trade,
        depth: depth as Depth,
        snapshot: snapshot as Snapshot,
    }
}

fn collected_file(stem: &str, lines: &[&str]) -> CollectorFile {
    CollectorFile {
        stem: Some(stem.to_string()),
        lines: lines.iter().map(|l| l.to_string()).collect(),
    }
}

const TRADE: &str = r#"1700000000000000000 {"stream":"btcusdt@trade","data":{"E":1700000000000,"s":"BTCUSDT","t":123456,"p":"50000.50","q":"0.001","m":false}}"#;
const DEPTH: &str = r#"1700000001000000000 {"stream":"btcusdt@depth@0ms","data":{"E":1700000001000,"s":"BTCUSDT","b":[["50000.00","1.5"]],"a":[["50001.00","2.0"]]}}"#;
const SNAPSHOT: &str = r#"1700000002000000000 {"lastUpdateId":1000,"E":1700000002000,"T":1700000002000,"bids":[["49999.00","10.0"]],"asks":[["50002.00","5.0"]]}"#;

#[test]
fn test_parse_line() {
    let line = r#"1700000000000000000 {"stream":"btcusdt@trade","data":{}}"#;
    let (ts, json) = parse_line(line).unwrap();
    assert_eq!(ts, 1700000000000000000);
    assert!(json.contains("stream"));
}

#[test]
fn test_extract_symbol() {
    assert_eq!(extract_symbol("btcusdt@trade"), Some("BTCUSDT".to_string()));
    assert_eq!(extract_symbol("ethusdt@depth@0ms"), Some("ETHUSDT".to_string()));
}

#[test]
fn test_convert_to_tardis_csv() {
    let input = collected_file("btcusdt_20231114", &[TRADE, DEPTH, SNAPSHOT]);
    let config = CollectorConvertConfig::default();
    let stats = convert_to_tardis_csv(&[input], &config, &decoders()).stats;

    assert_eq!(stats.trades, 1);
    assert_eq!(stats.depth_updates, 2);
    assert_eq!(stats.snapshot_entries, 2);
}

#[test]
fn rows_hold_what_the_lines_say() {
    let input = collected_file("btcusdt_20231114", &[TRADE, DEPTH, SNAPSHOT]);
    let rows = convert_to_tardis_csv(&[input], &CollectorConvertConfig::default(), &decoders());
    assert_eq!(
        rows.trades,
        vec!["binance-futures,BTCUSDT,1700000000000000,1700000000000000,123456,buy,50000.50,0.001"]
    );
    assert_eq!(
        rows.depth,
        vec![
            "binance-futures,BTCUSDT,1700000001000000,1700000001000000,false,bid,50000.00,1.5",
            "binance-futures,BTCUSDT,1700000001000000,1700000001000000,false,ask,50001.00,2.0",
            "binance-futures,BTCUSDT,1700000002000000,1700000002000000,true,bid,49999.00,10.0",
            "binance-futures,BTCUSDT,1700000002000000,1700000002000000,true,ask,50002.00,5.0",
        ]
    );
    let trade = parse_trade_record(&rows.trades[0], &parse).unwrap();
    assert_eq!((trade.timestamp, trade.price), (1700000000000000, 50000.5));
    let depth = parse_depth_record(&rows.depth[2], &parse).unwrap();
    assert!(depth.is_snapshot);
    assert_eq!((depth.price, depth.amount), (49999.0, 10.0));
    assert_eq!(detect_file_type(trades_header()), Some(FileType::Trades));
    assert_eq!(detect_file_type(depth_header()), Some(FileType::Depth));
}

#[test]
fn snapshots_can_be_left_out() {
    let input = collected_file("btcusdt_20231114", &[TRADE, DEPTH, SNAPSHOT]);
    let config =
        CollectorConvertConfig { include_snapshots: false, exchange: "other".to_string() };
    let rows = convert_to_tardis_csv(&[input], &config, &decoders());
    assert_eq!(rows.stats.snapshot_entries, 0);
    assert_eq!(rows.depth.len(), 2);
    assert!(rows.trades[0].starts_with("other,BTCUSDT,"));
}

#[test]
fn other_lines_are_counted() {
    let lines = [
        "",
        "no timestamp",
        r#"1700000000000000000 {"stream":"btcusdt@bookTicker","data":{}}"#,
        r#"1700000000000000000 {"stream":"btcusdt@trade","data":{"E":1}}"#,
        r#"1700000000000000000 {"other":1}"#,
    ];
    let input = collected_file("btcusdt", &lines);
    let stats: ConversionStats =
        convert_to_tardis_csv(&[input], &CollectorConvertConfig::default(), &decoders()).stats;
    assert_eq!(stats.trades + stats.depth_updates + stats.snapshot_entries, 0);
    assert_eq!(stats.book_ticker_count, 1);
    assert!(stats.errors >= 1);
}

#[test]
fn sold_trades_are_marked() {
    let line = TRADE.replace("\"m\":false", "\"m\":true");
    let input = collected_file("btcusdt_20231114", &[&line]);
    let rows = convert_to_tardis_csv(&[input], &CollectorConvertConfig::default(), &decoders());
    assert!(rows.trades[0].contains(",sell,"));
}

#[test]
fn symbols_come_from_file_names() {
    assert_eq!(snapshot_symbol(Some("btcusdt_20231114")), "BTCUSDT");
    assert_eq!(snapshot_symbol(Some("stra\u{df}e")), "STRASSE");
}

#[test]
fn times_that_do_not_fit_are_seen() {
    let rows = CsvRows::new();
    let config = CollectorConvertConfig::default();
    assert!(rows.accepts(&config, "BTCUSDT", TRADE, &decoders()));
    let late = TRADE.replace("\"E\":1700000000000", "\"E\":9223372036854775807");
    assert!(!rows.accepts(&config, "BTCUSDT", &late, &decoders()));
    let mut rows = CsvRows::new();
    rows.push_line(&config, "BTCUSDT", DEPTH, &decoders());
    assert_eq!(rows.stats.depth_updates, 2);
}

#[test]
fn collected_lines_read_back() {
    for nanos in [i64::MIN, -1, 0, 7, i64::MAX] {
        let line = format_line(nanos, "{\"a\": 1}");
        assert_eq!(parse_line(&line), Some((nanos, "{\"a\": 1}")));
    }
    assert_eq!(format_line(12, "x y"), "12 x y");
    assert_eq!(parse_line("12"), None);
    assert_eq!(parse_line("x 12"), None);
    assert_eq!(parse_line("+5 x"), Some((5, "x")));
    assert_eq!(parse_line("9223372036854775808 x"), None);
}
