//! Conversion of Tardis files, in both ways.

use hft_pipeline::data::tardis::{
    convert, convert_tardis, detect_file_type, fits_nanos, parse_depth_record, parse_trade_record,
    trade_to_event, DepthConverter, DepthRecord, FileType, SnapshotMode, TardisConvertConfig,
    TardisConverter, TardisFile, TradeRecord,
};
use hft_pipeline::data::tardis_fast::{
    convert_fast, convert_tardis_fast, detect_file_type_fast, digits_fit, parse_depth_line,
    parse_i64_fast, parse_trade_to_event, DepthConverterFast, FastConverter,
    FileType as FastFileType,
};
use hft_pipeline::data::validation::validate_event_order;
use hft_pipeline::numbers::Numbers;
use hft_pipeline::types::{
    Event, BUY_EVENT, DEPTH_CLEAR_EVENT, DEPTH_EVENT, DEPTH_SNAPSHOT_EVENT, EXCH_EVENT,
    LOCAL_EVENT, SELL_EVENT, TRADE_EVENT,
};

type Parse = fn(&str) -> Option<f64>;
type Pick = fn(f64, f64) -> f64;

fn parse(s: &str) -> Option<f64> {
    s.parse().ok()
}

fn numbers() -> Numbers<f64, Parse, Pick, Pick> {
    Numbers {
        zero: 0.0,
        highest: f64::INFINITY,
        lowest: f64::NEG_INFINITY,
        parse: parse as Parse,
        lower: f64::min as Pick,
        higher: f64::max as Pick,
    }
}

const TRADES_HEADER: &str = "exchange,symbol,timestamp,local_timestamp,id,side,price,amount";
const DEPTH_HEADER: &str =
    "exchange,symbol,timestamp,local_timestamp,is_snapshot,side,price,amount";

fn file(name: &str, header: &str, lines: &[&str]) -> TardisFile {
    TardisFile {
        name: name.to_string(),
        header: header.to_string(),
        lines: lines.iter().map(|l| l.to_string()).collect(),
    }
}

fn row(e: &Event<f64>) -> (u64, i64, i64, f64, f64) {
    (e.ev, e.exch_ts, e.local_ts, e.px, e.qty)
}

#[test]
fn test_detect_file_type() {
    assert_eq!(
        detect_file_type("exchange,symbol,timestamp,local_timestamp,id,side,price,amount"),
        Some(FileType::Trades)
    );
    assert_eq!(
        detect_file_type("exchange,symbol,timestamp,local_timestamp,is_snapshot,side,price,amount"),
        Some(FileType::Depth)
    );
    assert_eq!(
        detect_file_type(
            "exchange,symbol,timestamp,local_timestamp,ask_amount,ask_price,bid_price,bid_amount"
        ),
        Some(FileType::BookTicker)
    );
    assert_eq!(detect_file_type("unknown,header"), None);
}

#[test]
fn test_parse_trade_record() {
    let line = "binance-futures,BTCUSDT,1234567890123,1234567890456,trade123,buy,50000.5,0.001";
    let record = parse_trade_record(line, &parse).unwrap();
    assert_eq!(record.timestamp, 1234567890123);
    assert_eq!(record.local_timestamp, 1234567890456);
    assert_eq!(record.side, "buy");
    assert_eq!(record.price, 50000.5);
    assert_eq!(record.amount, 0.001);
}

#[test]
fn test_parse_depth_record() {
    let line = "binance-futures,BTCUSDT,1234567890123,1234567890456,false,bid,50000.0,1.5";
    let record = parse_depth_record(line, &parse).unwrap();
    assert_eq!(record.timestamp, 1234567890123);
    assert_eq!(record.local_timestamp, 1234567890456);
    assert!(!record.is_snapshot);
    assert_eq!(record.side, "bid");
    assert_eq!(record.price, 50000.0);
    assert_eq!(record.amount, 1.5);
}

#[test]
fn test_trade_to_event() {
    let record = TradeRecord {
        timestamp: 1000000,
        local_timestamp: 1000100,
        side: "buy".to_string(),
        price: 50000.0,
        amount: 0.1,
    };

    let event = trade_to_event(&record, 0.0);
    assert_eq!(event.ev, TRADE_EVENT | BUY_EVENT);
    assert_eq!(event.exch_ts, 1000000 * 1000);
    assert_eq!(event.local_ts, 1000100 * 1000);
    assert_eq!(event.px, 50000.0);
    assert_eq!(event.qty, 0.1);
}

fn depth_record(
    timestamp: i64,
    is_snapshot: bool,
    side: &str,
    price: f64,
    amount: f64,
) -> DepthRecord<f64> {
    DepthRecord {
        timestamp,
        local_timestamp: timestamp + 100,
        is_snapshot,
        side: side.to_string(),
        price,
        amount,
    }
}

#[test]
fn test_depth_converter_regular_update() {
    let mut converter = DepthConverter::new(1000, SnapshotMode::Process);
    let mut output = Vec::new();

    converter.process(&depth_record(1000000, false, "bid", 50000.0, 1.5), &mut output, &numbers());

    assert_eq!(output.len(), 1);
    assert_eq!(output[0].ev, DEPTH_EVENT | BUY_EVENT);
    assert_eq!(output[0].px, 50000.0);
    assert_eq!(output[0].qty, 1.5);
}

#[test]
fn test_depth_converter_snapshot() {
    let mut converter = DepthConverter::new(1000, SnapshotMode::Process);
    let mut output = Vec::new();

    converter.process(&depth_record(1000000, true, "bid", 50000.0, 1.0), &mut output, &numbers());
    converter.process(&depth_record(1000000, true, "bid", 49999.0, 2.0), &mut output, &numbers());

    assert_eq!(output.len(), 0);

    converter.process(&depth_record(1000001, false, "bid", 50001.0, 0.5), &mut output, &numbers());

    assert_eq!(output.len(), 4);

    assert_eq!(output[0].ev, DEPTH_CLEAR_EVENT | BUY_EVENT);
    assert_eq!(output[0].px, 49999.0);

    assert_eq!(output[1].ev, DEPTH_SNAPSHOT_EVENT | BUY_EVENT);
    assert_eq!(output[2].ev, DEPTH_SNAPSHOT_EVENT | BUY_EVENT);

    assert_eq!(output[3].ev, DEPTH_EVENT | BUY_EVENT);
}

#[test]
fn test_depth_converter_ignore_snapshot() {
    let mut converter = DepthConverter::new(1000, SnapshotMode::Ignore);
    let mut output = Vec::new();

    converter.process(&depth_record(1000000, true, "bid", 50000.0, 1.0), &mut output, &numbers());
    converter.process(&depth_record(1000001, false, "bid", 50001.0, 0.5), &mut output, &numbers());

    assert_eq!(output.len(), 1);
    assert_eq!(output[0].ev, DEPTH_EVENT | BUY_EVENT);
}

#[test]
fn start_of_day_snapshot_can_be_left_out() {
    let mut converter = DepthConverter::new(1000, SnapshotMode::IgnoreSod);
    let mut output = Vec::new();
    assert!(converter.skips_snapshot());
    converter.process(&depth_record(1, true, "ask", 10.0, 1.0), &mut output, &numbers());
    converter.process(&depth_record(2, false, "ask", 11.0, 1.0), &mut output, &numbers());
    assert!(!converter.skips_snapshot());
    converter.process(&depth_record(3, true, "ask", 12.0, 1.0), &mut output, &numbers());
    converter.process(&depth_record(4, false, "ask", 13.0, 1.0), &mut output, &numbers());
    let kinds: Vec<u64> = output.iter().map(|e| e.ev).collect();
    assert_eq!(
        kinds,
        vec![
            DEPTH_EVENT | SELL_EVENT,
            DEPTH_CLEAR_EVENT | SELL_EVENT,
            DEPTH_SNAPSHOT_EVENT | SELL_EVENT,
            DEPTH_EVENT | SELL_EVENT,
        ]
    );
    assert_eq!(output[1].px, 12.0);
}

#[test]
fn test_parse_i64_fast() {
    assert_eq!(parse_i64_fast("12345"), 12345);
    assert_eq!(parse_i64_fast("1731715200006000"), 1731715200006000);
}

#[test]
fn test_parse_trade_to_event() {
    let line = "binance-futures,BTCUSDT,1234567890123,1234567890456,trade123,buy,50000.5,0.001";
    let event = parse_trade_to_event(line, &parse, 0.0).unwrap();
    assert_eq!(event.ev, TRADE_EVENT | BUY_EVENT);
    assert_eq!(event.exch_ts, 1234567890123 * 1000);
    assert_eq!(event.local_ts, 1234567890456 * 1000);
    assert_eq!(event.px, 50000.5);
    assert_eq!(event.qty, 0.001);
}

#[test]
fn test_parse_depth_line() {
    let line = "binance-futures,BTCUSDT,1234567890123,1234567890456,false,bid,50000.0,1.5";
    let result = parse_depth_line(line, &parse, 0.0).unwrap();
    assert_eq!(result.0, 1234567890123);
    assert_eq!(result.1, 1234567890456);
    assert!(!result.2);
    assert!(result.3);
    assert_eq!(result.4, 50000.0);
    assert_eq!(result.5, 1.5);
}

#[test]
fn malformed_records_are_refused() {
    assert!(parse_trade_record("a,b,1,2,id,buy,3.0", &parse).is_none());
    assert!(parse_trade_record("a,b,x,2,id,buy,3.0,4.0", &parse).is_none());
    assert!(parse_trade_record("a,b,1,2,id,buy,three,4.0", &parse).is_none());
    assert!(parse_depth_record("a,b,1,2,false,bid,3.0", &parse).is_none());
    assert!(parse_depth_line("a,b,1,2", &parse, 0.0).is_none());
    assert!(parse_trade_to_event("a,b,1,2", &parse, 0.0).is_none());
}

#[test]
fn lenient_numbers_skip_what_is_no_digit() {
    assert_eq!(parse_i64_fast("1a2b3"), 123);
    assert_eq!(parse_i64_fast(""), 0);
    assert!(digits_fit("9223372036854775807"));
    assert!(!digits_fit("9223372036854775808"));
    let event = parse_trade_to_event("a,b,1,2,id,sell,?,!", &parse, 0.0).unwrap();
    assert_eq!(row(&event), (TRADE_EVENT | SELL_EVENT, 1000, 2000, 0.0, 0.0));
}

#[test]
fn other_sides_carry_no_flag() {
    let record = TradeRecord {
        timestamp: 1,
        local_timestamp: 2,
        side: "unknown".to_string(),
        price: 1.0,
        amount: 1.0,
    };
    assert_eq!(trade_to_event(&record, 0.0).ev, TRADE_EVENT);
    assert!(fits_nanos(9223372036854775));
    assert!(!fits_nanos(9223372036854776));
}

#[test]
fn converted_files_are_in_order() {
    let files = vec![
        file(
            "trades.csv",
            TRADES_HEADER,
            &["x,BTCUSDT,2000,2100,1,buy,10.0,1.0", "x,BTCUSDT,1000,2200,2,sell,11.0,2.0"],
        ),
        file(
            "depth.csv",
            DEPTH_HEADER,
            &[
                "x,BTCUSDT,500,600,true,bid,9.0,1.0",
                "x,BTCUSDT,500,600,true,ask,12.0,1.0",
                "x,BTCUSDT,700,800,false,ask,12.5,1.0",
            ],
        ),
    ];
    let config = TardisConvertConfig::default();
    let events = convert_tardis(&files, &config, &numbers()).unwrap();
    assert!(validate_event_order(&events).is_ok());
    let both = EXCH_EVENT | LOCAL_EVENT;
    assert_eq!(row(&events[0]), (DEPTH_CLEAR_EVENT | BUY_EVENT | both, 500_000, 600_000, 9.0, 0.0));
    let mut exch: Vec<f64> =
        events.iter().filter(|e| e.ev & EXCH_EVENT != 0).map(|e| e.px).collect();
    exch.sort_by(f64::total_cmp);
    assert_eq!(exch, vec![9.0, 9.0, 10.0, 11.0, 12.0, 12.0, 12.5]);

    let again = convert(&files, &numbers()).unwrap();
    let fast = convert_fast(&files, &numbers()).unwrap();
    let fast_config = convert_tardis_fast(&files, &config, &numbers()).unwrap();
    let rows = |events: &[Event<f64>]| events.iter().map(row).collect::<Vec<_>>();
    assert_eq!(rows(&events), rows(&again));
    assert_eq!(rows(&events), rows(&fast));
    assert_eq!(rows(&events), rows(&fast_config));
}

#[test]
fn ignored_snapshots_leave_no_trace() {
    let with = file(
        "depth.csv",
        DEPTH_HEADER,
        &["x,B,500,600,true,bid,9.0,1.0", "x,B,700,800,false,ask,12.5,1.0"],
    );
    let without = file("depth.csv", DEPTH_HEADER, &["x,B,700,800,false,ask,12.5,1.0"]);
    let config =
        TardisConvertConfig { snapshot_mode: SnapshotMode::Ignore, ..TardisConvertConfig::default() };
    let a = convert_tardis(&[with], &config, &numbers()).unwrap();
    let b = convert_tardis(&[without], &config, &numbers()).unwrap();
    assert_eq!(a.iter().map(row).collect::<Vec<_>>(), b.iter().map(row).collect::<Vec<_>>());
    assert_eq!(a.len(), 1);
}

#[test]
fn unknown_file_is_named() {
    let unknown = file("quotes.csv", "a,b,c", &[]);
    let config = TardisConvertConfig::default();
    let error = convert_tardis(&[unknown], &config, &numbers()).unwrap_err();
    assert_eq!(error, "Unknown file type for quotes.csv");
}

#[test]
fn header_is_read_without_white_space_around_it() {
    let converter: TardisConverter<f64> = TardisConverter::new(&TardisConvertConfig::default());
    let header = format!("\u{3000} {TRADES_HEADER}\r\n");
    assert_eq!(converter.start_file("t.csv", &header), Ok(FileType::Trades));
}

#[test]
fn book_tickers_are_known_to_one_converter_only() {
    let header = "exchange,symbol,timestamp,local_timestamp,ask_amount,ask_price,bid_price,bid_amount";
    assert_eq!(detect_file_type_fast(header), None);
    assert_eq!(detect_file_type_fast(TRADES_HEADER), Some(FastFileType::Trades));
    assert_eq!(detect_file_type_fast(DEPTH_HEADER), Some(FastFileType::Depth));
}

#[test]
fn lines_that_do_not_fit_are_seen() {
    let converter: TardisConverter<f64> = TardisConverter::new(&TardisConvertConfig::default());
    let fast: FastConverter<f64> = FastConverter::new(&TardisConvertConfig::default());
    let line = "x,B,9223372036854776,1,1,buy,1.0,1.0";
    assert!(!converter.line_fits(FileType::Trades, line, &numbers()));
    assert!(!fast.line_fits(FastFileType::Trades, line, &numbers()));
    let line = "x,B,5,1,1,buy,1.0,1.0";
    assert!(converter.line_fits(FileType::Trades, line, &numbers()));
    assert!(fast.line_fits(FastFileType::Trades, line, &numbers()));
    assert!(converter.timestamps_fit(&numbers()));
    assert!(fast.timestamps_fit(&numbers()));
}

#[test]
fn lines_are_taken_one_by_one() {
    let mut converter: TardisConverter<f64> = TardisConverter::new(&TardisConvertConfig::default());
    let kind = converter.start_file("t.csv", TRADES_HEADER).unwrap();
    converter.push_line(kind, "x,B,5,6,1,buy,1.0,2.0", &numbers()).unwrap();
    let events = converter.finish(&numbers()).unwrap();
    assert_eq!(
        events.iter().map(row).collect::<Vec<_>>(),
        vec![(TRADE_EVENT | BUY_EVENT | EXCH_EVENT | LOCAL_EVENT, 5000, 6000, 1.0, 2.0)]
    );

    let mut fast: FastConverter<f64> = FastConverter::new(&TardisConvertConfig::default());
    let kind = fast.start_file("t.csv", TRADES_HEADER).unwrap();
    fast.push_line(kind, "x,B,5,6,1,buy,1.0,2.0", &numbers());
    assert_eq!(fast.finish(&numbers()).unwrap().len(), 1);
}

#[test]
fn fast_depth_converter_flushes_snapshots() {
    let mut converter = DepthConverterFast::new(1000, SnapshotMode::Process);
    let mut output = Vec::new();
    converter.process(1, 2, true, false, 12.0, 1.0, &mut output, &numbers());
    converter.process(1, 2, true, false, 13.0, 1.0, &mut output, &numbers());
    assert!(output.is_empty());
    converter.process(3, 4, false, true, 9.0, 1.0, &mut output, &numbers());
    assert_eq!(
        output.iter().map(|e| (e.ev, e.px)).collect::<Vec<_>>(),
        vec![
            (DEPTH_CLEAR_EVENT | SELL_EVENT, 13.0),
            (DEPTH_SNAPSHOT_EVENT | SELL_EVENT, 12.0),
            (DEPTH_SNAPSHOT_EVENT | SELL_EVENT, 13.0),
            (DEPTH_EVENT | BUY_EVENT, 9.0),
        ]
    );
}

#[test]
fn snapshot_at_the_end_is_handed_on() {
    let files = [file(
        "depth",
        DEPTH_HEADER,
        &["binance-futures,BTCUSDT,1000000,1000100,true,bid,50000.0,1.0"],
    )];
    let config = TardisConvertConfig { snapshot_mode: SnapshotMode::Process, ..TardisConvertConfig::default() };
    let flags = EXCH_EVENT | LOCAL_EVENT;
    let expected = vec![
        (DEPTH_CLEAR_EVENT | BUY_EVENT | flags, 1000000000, 1000100000, 50000.0, 0.0),
        (DEPTH_SNAPSHOT_EVENT | BUY_EVENT | flags, 1000000000, 1000100000, 50000.0, 1.0),
    ];
    let rows = |events: Vec<Event<f64>>| -> Vec<(u64, i64, i64, f64, f64)> {
        events.iter().map(row).collect()
    };
    assert_eq!(rows(convert_tardis(&files, &config, &numbers()).unwrap()), expected);
    assert_eq!(rows(convert_tardis_fast(&files, &config, &numbers()).unwrap()), expected);
    assert_eq!(rows(convert(&files, &numbers()).unwrap()), expected);
    assert_eq!(rows(convert_fast(&files, &numbers()).unwrap()), expected);

    for mode in [SnapshotMode::Ignore, SnapshotMode::IgnoreSod] {
        let config = TardisConvertConfig { snapshot_mode: mode, ..config };
        assert!(convert_tardis(&files, &config, &numbers()).unwrap().is_empty());
        assert!(convert_tardis_fast(&files, &config, &numbers()).unwrap().is_empty());
    }
}

#[test]
fn later_snapshot_at_the_end_is_handed_on_behind_the_updates() {
    let files = [
        file(
            "depth",
            DEPTH_HEADER,
            &[
                "x,BTCUSDT,1000000,1000100,false,bid,50000.0,1.5",
                "x,BTCUSDT,1000001,1000101,true,bid,49999.0,1.0",
                "x,BTCUSDT,1000001,1000101,true,bid,49998.0,2.0",
            ],
        ),
        file("more depth", DEPTH_HEADER, &["x,BTCUSDT,1000001,1000101,true,ask,50001.0,3.0", ""]),
    ];
    for mode in [SnapshotMode::Process, SnapshotMode::IgnoreSod] {
        let config = TardisConvertConfig { snapshot_mode: mode, ..TardisConvertConfig::default() };
        let events = convert_tardis(&files, &config, &numbers()).unwrap();
        let kinds: Vec<(u64, f64)> =
            events.iter().map(|e| (e.ev & !(EXCH_EVENT | LOCAL_EVENT), e.px)).collect();
        assert_eq!(
            kinds,
            vec![
                (DEPTH_EVENT | BUY_EVENT, 50000.0),
                (DEPTH_CLEAR_EVENT | BUY_EVENT, 49998.0),
                (DEPTH_SNAPSHOT_EVENT | BUY_EVENT, 49999.0),
                (DEPTH_SNAPSHOT_EVENT | BUY_EVENT, 49998.0),
                (DEPTH_CLEAR_EVENT | SELL_EVENT, 50001.0),
                (DEPTH_SNAPSHOT_EVENT | SELL_EVENT, 50001.0),
            ]
        );
        let fast = convert_tardis_fast(&files, &config, &numbers()).unwrap();
        assert_eq!(
            fast.iter().map(row).collect::<Vec<_>>(),
            events.iter().map(row).collect::<Vec<_>>()
        );
    }
}

#[test]
fn pending_snapshot_counts_for_the_range_of_timestamps() {
    let mut converter = TardisConverter::new(&TardisConvertConfig::default());
    let mut fast = FastConverter::new(&TardisConvertConfig::default());
    let late = "x,BTCUSDT,9223372036854775,0,true,bid,1.0,1.0";
    converter.push_line(FileType::Depth, late, &numbers()).unwrap();
    fast.push_line(FastFileType::Depth, late, &numbers());
    assert!(converter.timestamps_fit(&numbers()));
    let early = "x,BTCUSDT,0,9223372036854775,true,bid,1.0,1.0";
    converter.push_line(FileType::Depth, early, &numbers()).unwrap();
    fast.push_line(FastFileType::Depth, early, &numbers());
    assert!(!converter.timestamps_fit(&numbers()));
    assert!(!fast.timestamps_fit(&numbers()));
}
