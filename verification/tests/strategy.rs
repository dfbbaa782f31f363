//! Warmup, schedule and orders of the strategy.

use hft_pipeline::collector::file::format_line;
use hft_pipeline::collector::ipc::{handle_feed_event, FeedEvent, FeedRecord};
use hft_pipeline::recorder::convert::HftSide;
use hft_pipeline::strategy::grid::{
    close_position, collect_grid, grid_levels, plan_cancels, plan_grid, plan_stop_loss,
    plan_submissions, Closing, GridStart, GridSteps, WorkingOrder, CLOSE_ORDER_ID,
};
use hft_pipeline::strategy::run::{
    live_step, BacktestLoop, BacktestStep, Elapsed, LiveStep, TradingLoop, TurnStep,
};
use hft_pipeline::strategy::schedule::{divide, Schedule};
use hft_pipeline::strategy::update::{Due, OrderMode, Updates};
use hft_pipeline::strategy::warmup::{
    assess, check_data_freshness, choose_format, depth_side, find_recent_data_file,
    find_recent_npz_file, fits_window, get_data_duration, load_warmup_events_gz,
    load_warmup_events_jsonl, load_warmup_events_npz,
    Assessment, DataFile, DataFormat, DepthUpdateData, LineReaders, Loader, Replay, ReplayStep,
    WarmupConfig, WarmupResult,
};
use hft_pipeline::types::{Event, BUY_EVENT, DEPTH_EVENT, DEPTH_SNAPSHOT_EVENT, TRADE_EVENT};
use serde_json::Value;

#[test]
fn test_warmup_config() {
    let config = WarmupConfig::new("/data", "btcusdt").with_max_age(3600).with_min_duration(1800);

    assert_eq!(config.max_age_seconds, 3600);
    assert_eq!(config.min_duration_seconds, 1800);
    assert_eq!(config.symbol, "btcusdt");
}

#[test]
fn warmup_defaults() {
    let config = WarmupConfig::new("/data", "btcusdt");
    assert_eq!(config.data_dir, "/data");
    assert_eq!((config.max_age_seconds, config.min_duration_seconds), (7200, 3600));
}

fn files(names: &[(&str, i128)]) -> Vec<DataFile> {
    names.iter().map(|(n, t)| DataFile { name: n.to_string(), modified: *t }).collect()
}

#[test]
fn newest_data_file_is_chosen() {
    let config = WarmupConfig::new("/data", "BtcUsdt");
    let list = files(&[
        ("btcusdt_1.NPZ", 5),
        ("ethusdt_9.gz", 100),
        ("BTCUSDT_2.jsonl", 7),
        ("btcusdt_3.gz", 7),
        ("btcusdt.txt", 200),
    ]);
    assert_eq!(find_recent_data_file(&config, None, &list), Some(2));
    assert_eq!(find_recent_data_file(&config, Some("x_BTCUSDT_y"), &list), Some(1));
    assert_eq!(find_recent_data_file(&config, Some("other"), &files(&[("ethusdt.gz", 1)])), None);
    assert_eq!(find_recent_data_file(&config, None, &Vec::new()), None);
}

#[test]
fn newest_data_file_is_taken_only_if_it_is_npz() {
    let config = WarmupConfig::new("/data", "btcusdt");
    let found = |names: &[(&str, i128)]| find_recent_npz_file(&config, None, &files(names));
    assert_eq!(found(&[("btcusdt_1.gz", 5), ("btcusdt_2.npz", 6)]), Some(1));
    assert_eq!(found(&[("btcusdt_1.gz", 7), ("btcusdt_2.npz", 6)]), None);
    assert_eq!(found(&[("btcusdt_2.NPZ", 6)]), None);
    assert_eq!(find_recent_npz_file(&config, Some("btcusdt"), &files(&[(".npz", 6)])), None);
    assert_eq!(found(&[]), None);
}

#[test]
fn format_goes_by_extension() {
    assert_eq!(choose_format("npz"), Ok(DataFormat::Npz));
    assert_eq!(choose_format("gz"), Ok(DataFormat::Gz));
    assert_eq!(choose_format("jsonl"), Ok(DataFormat::Jsonl));
    assert_eq!(choose_format("NPZ"), Err("Unsupported file format: NPZ".to_string()));
}

fn at(exch_ts: i64) -> Event<f64> {
    Event { ev: 1, exch_ts, local_ts: 0, px: 1.0, qty: 1.0, order_id: 0, ival: 0, fval: 0.0 }
}

const SECOND: i64 = 1_000_000_000;

#[test]
fn freshness_is_judged_by_the_last_event() {
    let events = vec![at(0), at(100 * SECOND + 999)];
    assert_eq!(check_data_freshness(&events, 50, 150), Ok(50));
    assert_eq!(check_data_freshness(&events, 49, 150), Err(50));
    assert_eq!(check_data_freshness::<f64>(&[], 49, 150), Err(i64::MAX));
    assert_eq!(get_data_duration(&events), 100);
    assert_eq!(get_data_duration(&events[..1]), 0);
}

#[test]
fn only_the_last_seconds_are_kept() {
    let data = vec![at(0), at(90 * SECOND), at(95 * SECOND), at(100 * SECOND)];
    assert!(fits_window(&data, 10));
    let kept = load_warmup_events_npz(&data, 10).unwrap();
    let times: Vec<i64> = kept.iter().map(|e| e.exch_ts / SECOND).collect();
    assert_eq!(times, vec![90, 95, 100]);
    assert_eq!(load_warmup_events_npz::<f64>(&Vec::new(), 10).unwrap_err(), "Empty npz file");
    assert!(!fits_window(&[at(i64::MIN), at(i64::MAX)], 10));
}

fn depth(json: &str) -> Option<DepthUpdateData> {
    let v: Value = serde_json::from_str(json).ok()?;
    let side = |key: &str| -> Option<Vec<(String, String)>> {
        let mut r = Vec::new();
        for level in v.get(key)?.as_array()? {
            r.push((level.get(0)?.as_str()?.to_string(), level.get(1)?.as_str()?.to_string()));
        }
        Some(r)
    };
    Some(DepthUpdateData {
        event: v.get("e")?.as_str()?.to_string(),
        event_time: v.get("E")?.as_i64()?,
        bids: side("b")?,
        asks: side("a")?,
    })
}

fn is_trade(json: &str) -> bool {
    match serde_json::from_str::<Value>(json) {
        Ok(v) => v.get("p").is_some(),
        Err(_) => false,
    }
}

fn parse(s: &str) -> Option<f64> {
    s.parse().ok()
}

fn positive(v: f64) -> bool {
    v > 0.0
}

type Depth = fn(&str) -> Option<DepthUpdateData>;
type IsTrade = fn(&str) -> bool;
type Parse = fn(&str) -> Option<f64>;
type Positive = fn(f64) -> bool;

fn readers() -> LineReaders<f64, Depth, IsTrade, Parse, Positive> {
    LineReaders {
        depth: depth as Depth,
        is_trade: is_trade as IsTrade,
        parse: parse as Parse,
        positive: positive as Positive,
        zero: 0.0,
    }
}

fn collected() -> Vec<String> {
    [
        r#"11 {"e":"depthUpdate","E":2,"b":[["10.5","1"],["x","1"]],"a":[["11","?"]]}"#,
        r#"12 {"e":"depthSnapshot","E":1,"b":[],"a":[["12","3"],["0","1"]]}"#,
        r#"13 {"e":"trade","E":3,"p":"1"}"#,
        "14 {}",
        "no line",
        "",
    ]
    .iter()
    .map(|l| l.to_string())
    .collect()
}

#[test]
fn collected_lines_become_events_in_order_of_time() {
    let events = load_warmup_events_gz(&collected(), 3600, &readers()).unwrap();
    let rows: Vec<(u64, i64, i64, f64, f64)> =
        events.iter().map(|e| (e.ev, e.exch_ts, e.local_ts, e.px, e.qty)).collect();
    assert_eq!(
        rows,
        vec![
            (DEPTH_SNAPSHOT_EVENT, 1_000_000, 12, 12.0, 3.0),
            (DEPTH_EVENT | BUY_EVENT, 2_000_000, 11, 10.5, 1.0),
            (DEPTH_EVENT, 2_000_000, 11, 11.0, 0.0),
        ]
    );
    let same = load_warmup_events_jsonl(&collected(), 3600, &readers()).unwrap();
    assert_eq!(same.len(), 3);
}

fn warmed_up_from(ev: u64, px: &str) -> Result<Vec<Event<f64>>, String> {
    let feed = FeedEvent {
        ev,
        exch_ts: 5_999_999,
        px: px.to_string(),
        qty: "2".to_string(),
    };
    let json = match handle_feed_event("btcusdt", &feed).unwrap().1 {
        FeedRecord::Depth { event, event_time, bids, asks, .. } => {
            let side = |levels: Vec<(String, String)>| -> Value {
                Value::from(levels.into_iter().map(|(p, q)| Value::from(vec![p, q])).collect::<Vec<Value>>())
            };
            let mut record = serde_json::Map::new();
            record.insert("e".to_string(), Value::from(event));
            record.insert("E".to_string(), Value::from(event_time));
            record.insert("b".to_string(), side(bids));
            record.insert("a".to_string(), side(asks));
            Value::Object(record).to_string()
        }
        _ => panic!("a depth record"),
    };
    load_warmup_events_jsonl(&vec![format_line(77, &json)], 3600, &readers())
}

#[test]
fn collected_depth_is_replayed() {
    for kind in [DEPTH_EVENT, DEPTH_SNAPSHOT_EVENT] {
        for side in [BUY_EVENT, 0] {
            let events = warmed_up_from(kind | side, "10.5").unwrap();
            assert_eq!(events.len(), 1);
            assert_eq!(events[0].ev, kind | side);
            assert_eq!((events[0].exch_ts, events[0].local_ts), (5_000_000, 77));
            assert_eq!((events[0].px, events[0].qty), (10.5, 2.0));
            assert_eq!(depth_side(events[0].ev), Some(side == BUY_EVENT));
        }
    }
    assert_eq!(
        warmed_up_from(DEPTH_EVENT, "0").unwrap_err(),
        "No events parsed from jsonl file (lines: 1, errors: 0)"
    );
}

#[test]
fn files_without_events_are_told() {
    let lines: Vec<String> = collected()[2..].to_vec();
    assert_eq!(
        load_warmup_events_gz(&lines, 3600, &readers()).unwrap_err(),
        "No events parsed from gz file (lines: 4, errors: 1)"
    );
    assert_eq!(
        load_warmup_events_jsonl(&lines, 3600, &readers()).unwrap_err(),
        "No events parsed from jsonl file (lines: 4, errors: 1)"
    );
}

#[test]
fn lines_are_loaded_one_by_one() {
    let mut loader = Loader::new();
    for line in collected() {
        assert!(loader.line_fits(&line, &readers()));
        loader.push_line(&line, &readers());
    }
    assert_eq!(loader.sorted().len(), 3);
    assert_eq!(loader.finish("gz", 0).unwrap().len(), 2);
    let late = r#"1 {"e":"depthUpdate","E":9223372036855,"b":[],"a":[]}"#;
    assert!(!loader.line_fits(late, &readers()));
}

#[test]
fn loaded_events_are_assessed() {
    let stop = |r: Result<Vec<Event<f64>>, String>| match assess(&r, 60, 1000) {
        Assessment::Stop(result) => Some(result),
        Assessment::Replay { .. } => None,
    };
    assert!(matches!(stop(Err("bad".to_string())), Some(WarmupResult::Error(m)) if m == "bad"));
    assert!(matches!(stop(Ok(Vec::new())), Some(WarmupResult::NoDataFound)));
    assert!(matches!(
        stop(Ok(vec![at(900 * SECOND)])),
        Some(WarmupResult::DataTooOld { age_seconds: 100 })
    ));
    assert!(matches!(
        assess(&Ok(vec![at(950 * SECOND)]), 60, 1000),
        Assessment::Replay { age_seconds: 50 }
    ));
}

#[test]
fn replay_updates_once_per_period() {
    assert_eq!(depth_side(DEPTH_EVENT | BUY_EVENT), Some(true));
    assert_eq!(depth_side(DEPTH_SNAPSHOT_EVENT), Some(false));
    assert_eq!(depth_side(TRADE_EVENT | BUY_EVENT), None);
    let mut replay = Replay::new();
    assert_eq!(replay.advance(0, 10), ReplayStep::Update { volatility: true });
    assert_eq!(replay.advance(9, 10), ReplayStep::Skip);
    assert_eq!(replay.advance(10, 10), ReplayStep::Update { volatility: false });
    assert_eq!(replay.advance(60, 10), ReplayStep::Update { volatility: true });
    assert_eq!(replay.processed(), 3);
}

#[test]
fn division_goes_towards_zero() {
    assert_eq!(divide(7, 2), 3);
    assert_eq!(divide(-7, 2), -3);
    assert_eq!(divide(7, -2), -3);
    assert_eq!(divide(-7, -2), 3);
    assert_eq!(divide(i64::MIN, 1), i64::MIN);
}

#[test]
fn one_update_per_period() {
    let mut schedule = Schedule::new();
    let period = schedule.due(25, 10).unwrap();
    assert_eq!(period, 2);
    assert!(schedule.change_due(period));
    assert!(!schedule.change_due(period));
    schedule.done(period);
    assert_eq!(schedule.due(29, 10), None);
    assert_eq!(schedule.due(30, 10), Some(3));
    schedule.reset();
    assert_eq!(schedule.due(25, 10), Some(2));
}

fn working(order_id: u64, side: HftSide, cancellable: bool, expired: bool) -> WorkingOrder {
    WorkingOrder { order_id, side, cancellable, expired }
}

#[test]
fn grid_is_built_from_the_first_price() {
    let next = |px: f64| px - 0.5;
    let tick = |px: f64| (px / 0.5).round() as u64;
    let levels = grid_levels(true, 10.0, 3, &next, &tick);
    assert_eq!(levels, vec![(20, 10.0), (19, 9.5), (18, 9.0)]);
    assert!(grid_levels(false, 10.0, 3, &next, &tick).is_empty());
    assert_eq!(collect_grid(&vec![(1, 1.0), (2, 2.0), (1, 3.0)]), vec![(1, 3.0), (2, 2.0)]);
}

#[test]
fn orders_outside_the_grid_are_cancelled_when_old_enough() {
    let orders = vec![
        working(1, HftSide::Buy, true, true),
        working(2, HftSide::Buy, true, false),
        working(3, HftSide::Buy, true, true),
        working(4, HftSide::Sell, true, true),
        working(5, HftSide::Sell, false, true),
        working(6, HftSide::Unset, true, true),
    ];
    let plan = plan_cancels(&orders, &vec![(3, 1.0)], &vec![(9, 1.0)]);
    assert_eq!(plan.cancel, vec![1, 4]);
    assert_eq!((plan.holding_buys, plan.holding_sells), (1, 0));
    assert_eq!(plan_stop_loss(&orders), vec![1, 2, 3, 4, 6]);
}

#[test]
fn grid_is_planned_on_both_sides() {
    let orders = vec![
        working(99, HftSide::Buy, true, false),
        working(50, HftSide::Buy, true, true),
        working(101, HftSide::Sell, true, true),
    ];
    let start =
        GridStart { bid_price: 99.0, bids_open: true, ask_price: 101.0, asks_open: true, num: 2 };
    let steps = GridSteps {
        next_bid: |px: f64| px - 1.0,
        next_ask: |px: f64| px + 1.0,
        tick_of: |px: f64| px.round() as u64,
    };
    let plan = plan_grid(&orders, &start, &steps);
    assert_eq!(plan.bids, vec![(99, 99.0), (98, 98.0)]);
    assert_eq!(plan.asks, vec![(101, 101.0), (102, 102.0)]);
    assert_eq!(plan.cancels.cancel, vec![50]);
    assert_eq!((plan.cancels.holding_buys, plan.cancels.holding_sells), (0, 1));
    let (bids, asks) = plan.submissions(&vec![99, 101], true, false);
    assert_eq!(bids, vec![(98, 98.0)]);
    assert!(asks.is_empty());

    let closed = GridStart { bids_open: false, ..start };
    assert!(plan_grid(&orders, &closed, &steps).bids.is_empty());
}

#[test]
fn updates_follow_schedule_and_stop_loss() {
    let mut updates = Updates::new();
    assert_eq!(updates.begin(25, 10, false), None);
    assert_eq!(updates.begin(25, 10, true), Some(Due { period: 2, volatility: true }));
    updates.check(false, false);
    assert_eq!(updates.finish(2), OrderMode::Grid);
    assert_eq!(updates.begin(29, 10, true), None);
    assert_eq!(updates.begin(30, 10, true), Some(Due { period: 3, volatility: false }));
    updates.check(false, true);
    assert_eq!(updates.finish(3), OrderMode::StopLoss);
    updates.reset();
    assert_eq!(updates.begin(25, 10, true), Some(Due { period: 2, volatility: true }));
    assert_eq!(updates.finish(2), OrderMode::Grid);
}

#[test]
fn no_order_is_doubled() {
    let grid = vec![(1, 1.0), (2, 2.0), (3, 3.0)];
    assert_eq!(plan_submissions(&grid, &vec![2, 7], true), vec![(1, 1.0), (3, 3.0)]);
    assert!(plan_submissions(&grid, &vec![2, 7], false).is_empty());
}

#[test]
fn positions_are_closed_against_their_direction() {
    assert_eq!(close_position(false, true), Closing::Nothing);
    assert_eq!(close_position(true, true), Closing::Sell);
    assert_eq!(close_position(true, false), Closing::Buy);
    assert_eq!(CLOSE_ORDER_ID, 519);
}

#[test]
fn trading_loop_acts_at_its_intervals() {
    let mut turns = TradingLoop::new(5);
    for i in 1..=19u64 {
        assert!(!turns.begin_turn());
        assert_eq!(turns.step(false, false), TurnStep::Wait { note: false });
        assert_eq!(
            turns.step(true, false),
            TurnStep::Act { snapshot: false, log: i == 10, update: true, log_dry_run: false }
        );
    }
    assert!(turns.begin_turn());
    assert_eq!(turns.step(false, false), TurnStep::Wait { note: true });
    assert_eq!(
        turns.step(true, true),
        TurnStep::Act { snapshot: true, log: true, update: false, log_dry_run: true }
    );
    assert_eq!(turns.seconds(), 10);
}

#[test]
fn backtest_logs_every_hour() {
    let hour = 3_600 * SECOND;
    let mut run = BacktestLoop::new();
    assert_eq!(run.step(Elapsed::Time(hour - 1)), BacktestStep::Update { log: false });
    assert_eq!(run.step(Elapsed::Time(hour)), BacktestStep::Update { log: true });
    assert_eq!(run.step(Elapsed::Time(hour + 1)), BacktestStep::Update { log: false });
    assert_eq!(run.step(Elapsed::Other), BacktestStep::Skip);
    assert_eq!(run.iteration(), 3);
    assert_eq!(run.step(Elapsed::EndOfData), BacktestStep::Stop);
    assert_eq!(run.step(Elapsed::Failed), BacktestStep::Stop);
}

#[test]
fn live_trading_follows_the_feed() {
    assert_eq!(live_step(Some(0), false), LiveStep::Wait);
    assert_eq!(live_step(Some(1), false), LiveStep::Stop);
    assert_eq!(live_step(Some(2), false), LiveStep::Update);
    assert_eq!(live_step(Some(2), true), LiveStep::DryRun);
    assert_eq!(live_step(Some(3), false), LiveStep::OrderUpdate);
    assert_eq!(live_step(Some(9), false), LiveStep::Wait);
    assert_eq!(live_step(None, false), LiveStep::Wait);
}
