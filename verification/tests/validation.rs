//! Latency correction and the order of events.

use hft_pipeline::data::normalize::normalize_events;
use hft_pipeline::data::validation::{
    argsort_by_exch_ts, argsort_by_local_ts, correct_event_order, correct_local_timestamp,
    timestamps_fit, validate_event_order,
};
use hft_pipeline::types::{
    Event, BUY_EVENT, DEPTH_EVENT, EXCH_EVENT, LOCAL_EVENT, SELL_EVENT, TRADE_EVENT,
};

fn event(ev: u64, exch_ts: i64, local_ts: i64, px: f64, qty: f64) -> Event<f64> {
    Event { ev, exch_ts, local_ts, px, qty, order_id: 0, ival: 0, fval: 0.0 }
}

#[test]
fn test_correct_local_timestamp_positive_latency() {
    let mut data = vec![
        event(DEPTH_EVENT | BUY_EVENT, 1000, 1100, 100.0, 1.0),
        event(DEPTH_EVENT | SELL_EVENT, 1050, 1150, 101.0, 2.0),
    ];

    let min_latency = correct_local_timestamp(&mut data, 0);
    assert_eq!(min_latency, 100);
    assert_eq!(data[0].local_ts, 1100);
    assert_eq!(data[1].local_ts, 1150);
}

#[test]
fn test_correct_local_timestamp_negative_latency() {
    let mut data = vec![
        event(DEPTH_EVENT | BUY_EVENT, 1000, 900, 100.0, 1.0),
        event(DEPTH_EVENT | SELL_EVENT, 1050, 1000, 101.0, 2.0),
    ];

    let min_latency = correct_local_timestamp(&mut data, 10);
    assert_eq!(min_latency, -100);
    assert_eq!(data[0].local_ts, 900 + 110);
    assert_eq!(data[1].local_ts, 1000 + 110);
}

#[test]
fn test_correct_event_order() {
    let data = vec![
        event(DEPTH_EVENT | BUY_EVENT, 1000, 1100, 100.0, 1.0),
        event(TRADE_EVENT | SELL_EVENT, 1050, 1080, 101.0, 2.0),
    ];

    let exch_indices = argsort_by_exch_ts(&data);
    let local_indices = argsort_by_local_ts(&data);

    let result = correct_event_order(&data, &exch_indices, &local_indices);

    assert_eq!(result.len(), 3);

    assert_eq!(result[0].exch_ts, 1000);
    assert!((result[0].ev & EXCH_EVENT) == EXCH_EVENT);

    assert_eq!(result[1].local_ts, 1080);
    assert!((result[1].ev & LOCAL_EVENT) == LOCAL_EVENT);

    assert_eq!(result[2].local_ts, 1100);
    assert!((result[2].ev & LOCAL_EVENT) == LOCAL_EVENT);
}

#[test]
fn test_validate_event_order_valid() {
    let data = vec![
        event(DEPTH_EVENT | BUY_EVENT | EXCH_EVENT, 1000, 1100, 100.0, 1.0),
        event(DEPTH_EVENT | SELL_EVENT | LOCAL_EVENT, 1050, 1150, 101.0, 2.0),
    ];

    assert!(validate_event_order(&data).is_ok());
}

#[test]
fn test_validate_event_order_invalid_exch() {
    let data = vec![
        event(DEPTH_EVENT | BUY_EVENT | EXCH_EVENT, 1050, 1100, 100.0, 1.0),
        event(DEPTH_EVENT | SELL_EVENT | EXCH_EVENT, 1000, 1150, 101.0, 2.0),
    ];

    assert!(validate_event_order(&data).is_err());
}

#[test]
fn invalid_local_order_is_reported() {
    let data = vec![
        event(DEPTH_EVENT | LOCAL_EVENT, 1000, 1150, 100.0, 1.0),
        event(DEPTH_EVENT | LOCAL_EVENT, 1000, 1100, 101.0, 2.0),
    ];
    let message = validate_event_order(&data).unwrap_err();
    assert!(message.contains("local"), "{message}");
    let exch = validate_event_order(&[
        event(DEPTH_EVENT | EXCH_EVENT, 2, 1, 0.0, 0.0),
        event(DEPTH_EVENT | EXCH_EVENT, 1, 1, 0.0, 0.0),
    ])
    .unwrap_err();
    assert_ne!(message, exch);
}

#[test]
fn every_event_stands_once_in_both_orders() {
    let data = vec![
        event(DEPTH_EVENT, 30, 40, 1.0, 1.0),
        event(DEPTH_EVENT, 10, 45, 2.0, 1.0),
        event(DEPTH_EVENT, 20, 41, 3.0, 1.0),
        event(DEPTH_EVENT, 20, 41, 4.0, 1.0),
    ];
    let result = correct_event_order(&data, &argsort_by_exch_ts(&data), &argsort_by_local_ts(&data));
    let prices = |flag: u64| -> Vec<f64> {
        result.iter().filter(|e| e.ev & flag == flag).map(|e| e.px).collect()
    };
    assert_eq!(prices(EXCH_EVENT), vec![2.0, 3.0, 4.0, 1.0]);
    assert_eq!(prices(LOCAL_EVENT), vec![1.0, 3.0, 4.0, 2.0]);
    assert!(validate_event_order(&result).is_ok());
}

#[test]
fn equal_timestamps_stay_in_order() {
    let data = vec![
        event(1, 5, 5, 1.0, 0.0),
        event(1, 4, 5, 2.0, 0.0),
        event(1, 5, 5, 3.0, 0.0),
        event(1, 4, 5, 4.0, 0.0),
    ];
    assert_eq!(argsort_by_exch_ts(&data), vec![1, 3, 0, 2]);
    assert_eq!(argsort_by_local_ts(&data), vec![0, 1, 2, 3]);
}

#[test]
fn normalization_corrects_latency_and_order() {
    let data = vec![
        event(TRADE_EVENT | BUY_EVENT, 2000, 1900, 2.0, 1.0),
        event(TRADE_EVENT | SELL_EVENT, 1000, 1050, 1.0, 1.0),
    ];
    assert!(timestamps_fit(&data, 5));
    let result = normalize_events(data, 5).unwrap();
    assert!(validate_event_order(&result).is_ok());
    assert!(result.iter().all(|e| e.local_ts - e.exch_ts >= 5));
    assert_eq!(result[0].exch_ts, 1000);
    assert_eq!(result[0].local_ts, 1050 + 105);
}

#[test]
fn latency_beyond_the_range_is_seen() {
    let data = vec![event(1, i64::MAX, i64::MIN, 0.0, 0.0)];
    assert!(!timestamps_fit(&data, 0));
}
