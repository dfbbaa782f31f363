//! Recording of orders, fills, positions and states.

use hft_pipeline::clock::nanos_to_datetime;
use hft_pipeline::recorder::convert::{
    convert_side, convert_status, get_latency_ns, HftSide, HftStatus, Order,
};
use hft_pipeline::recorder::events::{
    FillEvent, OrderStatus, OrderUpdate, PositionSnapshot, RecordingEvent, RecordingMessage, Side,
    StrategyState, StrategyStatus, MAX_SIZE,
};
use hft_pipeline::recorder::hook::{OrderHookContext, OrderNumbers};
use hft_pipeline::recorder::service::{handle_event, ServiceConfig};
use hft_pipeline::recorder::writer::{
    Batches, FillRow, OrderRow, PositionRow, StatusRow, WriteCommand, WriterConfig, WriterError,
};

fn order_update() -> OrderUpdate<f64> {
    OrderUpdate {
        timestamp: 1000000000,
        strategy_id: "test".to_string(),
        order_id: 123,
        symbol: "btcusdt".to_string(),
        side: Side::Buy,
        price: 50000.0,
        qty: 0.1,
        status: OrderStatus::Filled,
        prev_status: OrderStatus::New,
        leaves_qty: 0.0,
        exec_qty: 0.1,
        exec_price: 50000.0,
        exch_time: 999000000,
        latency_ns: 1000000,
    }
}

#[test]
fn test_order_row_from_update() {
    let update = order_update();

    let row = OrderRow::from(&update);
    assert_eq!(row.order_id, 123);
    assert_eq!(row.side, 1);
    assert_eq!(row.status, 3);
}

#[test]
fn test_order_update_roundtrip() {
    // The event as the encoder sees it: variant, then the fields in turn.
    let event = (
        0u32,
        (1234567890i64, "test_strategy".to_string(), 12345u64, "btcusdt".to_string()),
        (0u32, 50000.0f64, 0.1f64, 2u32, 0u32),
        (0.0f64, 0.1f64, 50000.0f64, 1234567800i64, 1000000i64),
    );
    let config = bincode::config::standard();
    let encoded = bincode::encode_to_vec(&event, config).unwrap();

    let msg = RecordingMessage::new(&encoded).unwrap();
    let payload = msg.payload();
    assert_eq!(payload, encoded);
    let (decoded, used): (
        (
            u32,
            (i64, String, u64, String),
            (u32, f64, f64, u32, u32),
            (f64, f64, f64, i64, i64),
        ),
        usize,
    ) = bincode::decode_from_slice(&payload, config).unwrap();

    assert_eq!(used, encoded.len());
    if decoded.0 == 0 {
        assert_eq!(decoded.1 .2, 12345);
        assert_eq!(decoded.1 .3, "btcusdt");
    } else {
        panic!("Wrong event type");
    }
}

#[test]
fn messages_have_a_limit() {
    let full = vec![7u8; MAX_SIZE];
    let message = RecordingMessage::new(&full).unwrap();
    assert_eq!(message.len, MAX_SIZE as u32);
    assert_eq!(message.payload(), full);
    assert!(RecordingMessage::new(&vec![7u8; MAX_SIZE + 1]).is_err());
    assert!(RecordingMessage::default().payload().is_empty());
    let short = RecordingMessage::new(&[1, 2, 3]).unwrap();
    assert_eq!(short.len, 3);
    assert_eq!(short.data[3], 0);
}

#[test]
fn codes_are_distinct() {
    assert_eq!(Side::Buy.as_i8(), 1);
    assert_eq!(Side::Sell.as_i8(), -1);
    let statuses = [
        OrderStatus::New,
        OrderStatus::PartiallyFilled,
        OrderStatus::Filled,
        OrderStatus::Canceled,
        OrderStatus::Rejected,
        OrderStatus::Expired,
    ];
    let mut codes: Vec<u8> = statuses.iter().map(|s| s.as_u8()).collect();
    codes.sort();
    codes.dedup();
    assert_eq!(codes.len(), 6);
    let states = [
        StrategyState::Starting,
        StrategyState::Running,
        StrategyState::Paused,
        StrategyState::Stopping,
        StrategyState::Stopped,
        StrategyState::Error,
    ];
    let mut codes: Vec<u8> = states.iter().map(|s| s.as_u8()).collect();
    codes.sort();
    codes.dedup();
    assert_eq!(codes.len(), 6);
}

#[test]
fn times_are_stored_as_they_are() {
    for nanos in [i64::MIN, -1, 0, 1_700_000_000_123_456_789, i64::MAX] {
        assert_eq!(nanos_to_datetime(nanos), nanos as i128);
    }
    let row = OrderRow::from(&order_update());
    assert_eq!(row.update_time, 1000000000);
    assert_eq!(row.exch_time, 999000000);
}

fn fill_event() -> FillEvent<f64> {
    FillEvent {
        timestamp: 5,
        strategy_id: "test".to_string(),
        fill_id: 1,
        order_id: 2,
        symbol: "btcusdt".to_string(),
        side: Side::Sell,
        price: 50010.0,
        qty: 0.1,
        fee: 0.0,
        is_maker: true,
        exch_time: 4,
        mid_price: 50000.0,
    }
}

#[test]
fn rows_hold_what_the_events_say() {
    let row = FillRow::new(&fill_event(), 2.0);
    assert_eq!((row.fill_id, row.order_id, row.side, row.is_maker), (1, 2, -1, 1));
    assert_eq!((row.exch_time, row.local_time, row.slippage_bps), (4, 5, 2.0));
    let position = PositionSnapshot {
        timestamp: 9,
        strategy_id: "s".to_string(),
        symbol: "btcusdt".to_string(),
        position: 1.0,
        avg_price: 2.0,
        mid_price: 3.0,
        unrealized_pnl: 4.0,
        realized_pnl: 5.0,
    };
    let row = PositionRow::from(&position);
    assert_eq!((row.timestamp, row.position, row.avg_price), (9, 1.0, 2.0));
    assert_eq!((row.unrealized_pnl, row.realized_pnl), (4.0, 5.0));
    let status = StrategyStatus {
        timestamp: 9,
        strategy_id: "s".to_string(),
        state: StrategyState::Running,
        message: "up".to_string(),
    };
    let row = StatusRow::from(&status);
    assert_eq!((row.timestamp, row.status), (9, StrategyState::Running.as_u8()));
    assert_eq!(row.message, "up");
    let event: RecordingEvent<f64> = RecordingEvent::Status(status);
    assert_eq!((event.timestamp(), event.strategy_id()), (9, "s"));
}

#[test]
fn events_become_commands() {
    let command = handle_event(&RecordingEvent::Fill(fill_event()), 1.5);
    match command {
        WriteCommand::Fill(row) => assert_eq!((row.fill_id, row.slippage_bps), (1, 1.5)),
        _ => panic!("a fill is written as a fill"),
    }
    match handle_event(&RecordingEvent::Order(order_update()), 0.0) {
        WriteCommand::Order(row) => assert_eq!(row.order_id, 123),
        _ => panic!("an order is written as an order"),
    }
}

#[test]
fn batches_are_flushed_in_full_and_nothing_is_lost() {
    let mut batches: Batches<i32, i32, i32, i32> = Batches::new(2);
    assert!(batches.step(WriteCommand::Order(1)).orders.is_empty());
    let out = batches.step(WriteCommand::Order(2));
    assert_eq!(out.orders, vec![1, 2]);
    assert!(!out.stop);
    batches.step(WriteCommand::Fill(3));
    batches.step(WriteCommand::Position(4));
    batches.step(WriteCommand::Status(5));
    let out = batches.step(WriteCommand::Tick);
    assert_eq!((out.fills, out.positions, out.statuses), (vec![3], vec![4], vec![5]));
    batches.step(WriteCommand::Order(6));
    let out = batches.step(WriteCommand::Flush);
    assert_eq!(out.orders, vec![6]);
    batches.step(WriteCommand::Order(7));
    let out = batches.step(WriteCommand::Shutdown);
    assert_eq!(out.orders, vec![7]);
    assert!(out.stop);
}

#[test]
fn defaults_are_local() {
    let config = ServiceConfig::default();
    assert_eq!(config.ipc_service_name, "hft_recording");
    let writer = WriterConfig::default();
    assert_eq!((writer.url.as_str(), writer.database.as_str()), ("http://localhost:8123", "hft"));
    assert_eq!((writer.batch_size, writer.flush_interval), (100, 5));
    assert_eq!(WriterError::ChannelClosed.message(), "Writer channel closed");
}

fn order(status: HftStatus, exec_qty: f64) -> Order<f64> {
    Order {
        order_id: 42,
        side: HftSide::Buy,
        status,
        price_tick: 500,
        exec_price_tick: 501,
        qty: 1.0,
        leaves_qty: 1.0 - exec_qty,
        exec_qty,
        maker: true,
        exch_timestamp: 900,
        local_timestamp: 1000,
    }
}

#[test]
fn sides_and_states_are_converted() {
    assert_eq!(convert_side(HftSide::Buy), Side::Buy);
    assert_eq!(convert_side(HftSide::Sell), Side::Sell);
    assert_eq!(convert_side(HftSide::Unset), Side::Buy);
    assert_eq!(convert_status(HftStatus::Filled), OrderStatus::Filled);
    assert_eq!(convert_status(HftStatus::Canceled), OrderStatus::Canceled);
    assert_eq!(convert_status(HftStatus::Expired), OrderStatus::Expired);
    assert_eq!(convert_status(HftStatus::PartiallyFilled), OrderStatus::PartiallyFilled);
    assert_eq!(get_latency_ns(&order(HftStatus::New, 0.0)), -100);
}

#[test]
fn fills_are_numbered_in_turn() {
    let mut hook = OrderHookContext::new("s".to_string(), "btcusdt".to_string(), 0.1);
    let before = order(HftStatus::New, 0.0);
    let after = order(HftStatus::PartiallyFilled, 0.5);
    let mut numbers = OrderNumbers { price: 50.0, exec_price: 50.1, fill_qty: None, zero: 0.0 };
    let (update, fill) = hook.handle_order(&before, &after, 2000, &numbers);
    assert!(fill.is_none());
    assert_eq!((update.order_id, update.price, update.exec_price), (42, 50.0, 50.1));
    assert_eq!(update.prev_status, OrderStatus::New);
    assert_eq!(update.status, OrderStatus::PartiallyFilled);
    numbers.fill_qty = Some(0.5);
    let first = hook.handle_order(&before, &after, 2000, &numbers).1.unwrap();
    let second = hook.handle_order(&before, &after, 2001, &numbers).1.unwrap();
    assert_eq!(second.fill_id, first.fill_id + 1);
    assert_eq!((first.qty, first.mid_price, first.is_maker), (0.5, 50.1, true));
    assert_eq!((hook.strategy_id(), hook.symbol(), hook.tick_size()), ("s", "btcusdt", 0.1));
    assert_eq!(hook.status_event(1, StrategyState::Stopped, "m".to_string()).message, "m");
    assert_eq!(hook.position_event(1, 1.0, 2.0, 3.0, 4.0, 5.0).mid_price, 3.0);
}
