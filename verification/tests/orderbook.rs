//! Synchronization of order books with their snapshots.

use hft_pipeline::connector::orderbook::{DepthEvent, OrderBookManager, SymbolOrderBook, SyncState};
use hft_pipeline::connector::{rest, stream};

fn make_depth_event(symbol: &str, first_u: i64, last_u: i64, prev_u: i64) -> stream::Depth {
    stream::Depth {
        transaction_time: 1000,
        event_time: 1000,
        symbol: symbol.to_string(),
        first_update_id: first_u,
        last_update_id: last_u,
        prev_update_id: prev_u,
        bids: vec![("100.0".to_string(), "1.0".to_string())],
        asks: vec![("101.0".to_string(), "1.0".to_string())],
    }
}

fn make_snapshot(last_update_id: i64) -> rest::Depth {
    rest::Depth {
        last_update_id,
        event_time: 1000,
        transaction_time: 1000,
        bids: vec![("100.0".to_string(), "10.0".to_string())],
        asks: vec![("101.0".to_string(), "10.0".to_string())],
    }
}

#[test]
fn test_basic_sync_flow() {
    let mut manager = OrderBookManager::new();

    manager.start_init("btcusdt");
    assert!(manager.is_initializing("btcusdt"));
    assert!(manager.needs_snapshot("btcusdt"));

    let event1 = make_depth_event("btcusdt", 100, 105, 99);
    let (should_process, should_request) = manager.on_depth_update(&event1);
    assert!(!should_process);
    assert!(should_request);

    let event2 = make_depth_event("btcusdt", 106, 110, 105);
    let (should_process, should_request) = manager.on_depth_update(&event2);
    assert!(!should_process);
    assert!(!should_request);

    let snapshot = make_snapshot(102);
    let events = manager.on_snapshot("btcusdt", &snapshot);

    assert_eq!(events.len(), 3);
    assert!(matches!(events[0], DepthEvent::Snapshot { .. }));
    assert!(matches!(events[1], DepthEvent::Update { first_update_id: 100, .. }));
    assert!(matches!(events[2], DepthEvent::Update { first_update_id: 106, .. }));

    assert!(!manager.is_initializing("btcusdt"));
    assert!(!manager.needs_snapshot("btcusdt"));
}

#[test]
fn test_drop_old_events() {
    let mut manager = OrderBookManager::new();
    manager.start_init("btcusdt");

    let event1 = make_depth_event("btcusdt", 90, 95, 89);
    let event2 = make_depth_event("btcusdt", 96, 100, 95);
    let event3 = make_depth_event("btcusdt", 98, 105, 100);

    manager.on_depth_update(&event1);
    manager.on_depth_update(&event2);
    manager.on_depth_update(&event3);

    let snapshot = make_snapshot(100);
    let events = manager.on_snapshot("btcusdt", &snapshot);

    assert_eq!(events.len(), 2);
    assert!(matches!(events[0], DepthEvent::Snapshot { .. }));
    assert!(matches!(
        events[1],
        DepthEvent::Update { first_update_id: 98, last_update_id: 105, .. }
    ));
}

#[test]
fn test_continuity_check() {
    let mut manager = OrderBookManager::new();
    manager.start_init("btcusdt");

    let event1 = make_depth_event("btcusdt", 100, 105, 99);
    manager.on_depth_update(&event1);

    let snapshot = make_snapshot(102);
    manager.on_snapshot("btcusdt", &snapshot);

    let event2 = make_depth_event("btcusdt", 106, 110, 105);
    let (should_process, should_request) = manager.on_depth_update(&event2);
    assert!(should_process);
    assert!(!should_request);

    let event3 = make_depth_event("btcusdt", 115, 120, 112);
    let (should_process, should_request) = manager.on_depth_update(&event3);
    assert!(!should_process);
    assert!(should_request);
    assert!(manager.needs_snapshot("btcusdt"));
}

#[test]
fn test_gap_in_buffered_events() {
    let mut manager = OrderBookManager::new();
    manager.start_init("btcusdt");

    let event1 = make_depth_event("btcusdt", 100, 105, 99);
    let event2 = make_depth_event("btcusdt", 110, 115, 109);

    manager.on_depth_update(&event1);
    manager.on_depth_update(&event2);

    let snapshot = make_snapshot(102);
    let events = manager.on_snapshot("btcusdt", &snapshot);

    assert_eq!(events.len(), 2);
    assert!(manager.needs_snapshot("btcusdt"));
}

#[test]
fn test_resync_on_reconnect() {
    let mut manager = OrderBookManager::new();

    manager.start_init("btcusdt");
    let event1 = make_depth_event("btcusdt", 100, 105, 99);
    manager.on_depth_update(&event1);
    let snapshot = make_snapshot(102);
    manager.on_snapshot("btcusdt", &snapshot);

    assert!(!manager.needs_snapshot("btcusdt"));

    manager.mark_all_resync();

    assert!(manager.needs_snapshot("btcusdt"));
    assert!(manager.is_initializing("btcusdt"));
}

#[test]
fn test_snapshot_only_sync() {
    let mut manager = OrderBookManager::new();
    manager.start_init("btcusdt");

    let event1 = make_depth_event("btcusdt", 90, 95, 89);
    manager.on_depth_update(&event1);

    let snapshot = make_snapshot(100);
    let events = manager.on_snapshot("btcusdt", &snapshot);

    assert_eq!(events.len(), 1);
    assert!(matches!(events[0], DepthEvent::Snapshot { .. }));

    assert!(!manager.needs_snapshot("btcusdt"));

    let event2 = make_depth_event("btcusdt", 98, 99, 97);
    let (should_process, should_request) = manager.on_depth_update(&event2);
    assert!(!should_process);
    assert!(!should_request);

    let event3 = make_depth_event("btcusdt", 98, 105, 99);
    let (should_process, should_request) = manager.on_depth_update(&event3);
    assert!(should_process);
    assert!(!should_request);

    let event4 = make_depth_event("btcusdt", 106, 110, 105);
    let (should_process, should_request) = manager.on_depth_update(&event4);
    assert!(should_process);
    assert!(!should_request);

    let event5 = make_depth_event("btcusdt", 120, 125, 118);
    let (should_process, should_request) = manager.on_depth_update(&event5);
    assert!(!should_process);
    assert!(should_request);
}

#[test]
fn unknown_symbol_needs_a_snapshot_and_gets_a_book() {
    let mut manager = OrderBookManager::default();
    assert!(manager.needs_snapshot("ethusdt"));
    assert!(!manager.is_initializing("ethusdt"));
    assert!(manager.symbols_needing_snapshot().is_empty());
    let answer = manager.on_depth_update(&make_depth_event("ethusdt", 1, 2, 0));
    assert_eq!(answer, (false, true));
    assert_eq!(manager.symbols_needing_snapshot(), vec!["ethusdt".to_string()]);
}

#[test]
fn books_of_other_symbols_stay() {
    let mut manager = OrderBookManager::new();
    for symbol in ["btcusdt", "ethusdt"] {
        manager.start_init(symbol);
        manager.on_depth_update(&make_depth_event(symbol, 100, 105, 99));
        manager.on_snapshot(symbol, &make_snapshot(102));
    }
    manager.mark_resync("btcusdt");
    assert!(manager.needs_snapshot("btcusdt"));
    assert!(!manager.needs_snapshot("ethusdt"));
    let answer = manager.on_depth_update(&make_depth_event("ethusdt", 106, 110, 105));
    assert_eq!(answer, (true, false));
}

#[test]
fn snapshot_carries_its_levels_and_updates_theirs() {
    let mut book = SymbolOrderBook::new("btcusdt".to_string());
    assert_eq!(book.state, SyncState::Initializing);
    book.on_depth_update(&make_depth_event("btcusdt", 100, 105, 99));
    assert_eq!(book.pending_events.len(), 1);
    let events = book.on_snapshot(&make_snapshot(102));
    match &events[0] {
        DepthEvent::Snapshot { symbol, transaction_time, bids, asks, last_update_id } => {
            assert_eq!(symbol, "btcusdt");
            assert_eq!(*transaction_time, 1000);
            assert_eq!(bids, &vec![("100.0".to_string(), "10.0".to_string())]);
            assert_eq!(asks, &vec![("101.0".to_string(), "10.0".to_string())]);
            assert_eq!(*last_update_id, 102);
        }
        DepthEvent::Update { .. } => panic!("the snapshot comes first"),
    }
    match &events[1] {
        DepthEvent::Update { bids, asks, .. } => {
            assert_eq!(bids, &vec![("100.0".to_string(), "1.0".to_string())]);
            assert_eq!(asks, &vec![("101.0".to_string(), "1.0".to_string())]);
        }
        DepthEvent::Snapshot { .. } => panic!("there is one snapshot only"),
    }
    assert_eq!(book.state, SyncState::Synchronized);
    assert_eq!(book.last_update_id, Some(105));
    assert_eq!(book.pending_events.len(), 0);

    book.reset();
    assert_eq!(book.state, SyncState::Initializing);
    assert_eq!(book.last_update_id, None);
}

#[test]
fn first_event_beyond_the_snapshot_is_a_gap() {
    let mut book = SymbolOrderBook::new("btcusdt".to_string());
    book.on_snapshot(&make_snapshot(100));
    assert!(book.awaiting_first_event);
    assert_eq!(book.on_depth_update(&make_depth_event("btcusdt", 103, 110, 102)), (false, true));
    assert_eq!(book.state, SyncState::Initializing);
    assert_eq!(book.pending_events.len(), 1);
    assert_eq!(book.on_depth_update(&make_depth_event("btcusdt", 111, 112, 110)), (false, false));
}

#[test]
fn buffer_that_starts_beyond_the_snapshot_asks_for_another() {
    let mut book = SymbolOrderBook::new("btcusdt".to_string());
    book.on_depth_update(&make_depth_event("btcusdt", 103, 110, 102));
    assert!(book.on_snapshot(&make_snapshot(100)).is_empty());
    assert_eq!(book.state, SyncState::NeedResync);
    assert_eq!(book.pending_events.len(), 1);
    assert_eq!(book.on_depth_update(&make_depth_event("btcusdt", 111, 112, 110)), (false, false));
    let events = book.on_snapshot(&make_snapshot(105));
    assert_eq!(events.len(), 3);
    assert_eq!(book.last_update_id, Some(112));
}
