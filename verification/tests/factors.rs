//! Buffers, windows and decisions of the factors.

use hft_pipeline::factors::obi::Region;
use hft_pipeline::factors::ring_buffer::RingBuffer;
use hft_pipeline::factors::stop_loss::{StopLossMonitor, StopLossStatus};
use hft_pipeline::factors::time_window::TimeWindowQueue;
use hft_pipeline::factors::volatility::{ReturnSampler, Sample};

fn plus(a: f64, b: f64) -> f64 {
    a + b
}

fn minus(a: f64, b: f64) -> f64 {
    a - b
}

#[test]
fn test_ring_buffer() {
    let mut buf = RingBuffer::new(3);

    assert!(buf.push(1.0).is_none());
    assert!(buf.push(2.0).is_none());
    assert!(buf.push(3.0).is_none());
    assert!(buf.is_full());

    assert_eq!(buf.push(4.0), Some(1.0));
    assert_eq!(buf.push(5.0), Some(2.0));
}

#[test]
fn ring_buffer_holds_the_most_recent() {
    let mut buf = RingBuffer::new(3);
    assert!(buf.is_empty());
    for v in 1..=5 {
        buf.push(v);
    }
    assert_eq!(buf.len(), 3);
    assert_eq!(buf.capacity(), 3);
    let held: Vec<i32> = (0..3).map(|i| buf.get(i).unwrap()).collect();
    assert_eq!(held, vec![3, 4, 5]);
    assert_eq!(buf.get(3), None);
    buf.clear();
    assert!(buf.is_empty());
    assert_eq!(buf.push(9), None);
}

#[test]
fn test_time_window_queue() {
    let mut queue = TimeWindowQueue::new(100, 0.0);

    queue.update(0, 1.0, &plus, &minus);
    queue.update(50, 2.0, &plus, &minus);
    assert_eq!(queue.sum(), 3.0);

    queue.update(150, 3.0, &plus, &minus);
    assert_eq!(queue.sum(), 5.0);
}

#[test]
fn window_keeps_what_is_recent() {
    let mut queue = TimeWindowQueue::new(10, 0.0);
    assert!(queue.is_empty());
    for t in 0..5 {
        queue.update(t * 10, 1.0, &plus, &minus);
    }
    assert_eq!(queue.count(), 2);
    assert_eq!(queue.sum(), 2.0);
    queue.clear(0.0);
    assert_eq!(queue.count(), 0);
    assert_eq!(queue.sum(), 0.0);
}

#[test]
fn stop_loss_follows_the_checks() {
    let mut monitor = StopLossMonitor::new();
    assert_eq!(monitor.status(), StopLossStatus::Normal);
    assert_eq!(monitor.check(false, false), StopLossStatus::Normal);
    assert_eq!(monitor.check(true, false), StopLossStatus::Triggered);
    assert!(monitor.is_triggered());
    monitor.reset_status();
    assert!(!monitor.is_triggered());
    assert_eq!(monitor.check(false, true), StopLossStatus::Triggered);
    assert_eq!(StopLossStatus::Normal.as_u8(), 0);
    assert_eq!(StopLossStatus::Triggered.as_u8(), 1);
    assert_eq!(StopLossStatus::Cooldown.as_u8(), 2);
}

#[test]
fn returns_are_sampled_once_per_interval() {
    let mut sampler = ReturnSampler::new(100, 0.0);
    assert!(matches!(sampler.observe(1000, 50.0, false), Sample::First));
    assert!(matches!(sampler.observe(1099, 51.0, true), Sample::Waiting));
    match sampler.observe(1100, 52.0, true) {
        Sample::ReturnFrom(last) => assert_eq!(last, 50.0),
        _ => panic!("a return is due"),
    }
    assert_eq!(sampler.last_price(), 52.0);
    sampler.reset(0.0);
    assert_eq!(sampler.sample_count(), 0);
}

#[test]
fn depth_is_summed_within_the_region() {
    let region = Region { roi_lb_tick: 10, roi_ub_tick: 20 };
    let depth: Vec<f64> = (0..10).map(|i| i as f64).collect();
    assert_eq!(region.sum_asks(&depth, 5, 13, 0.0, &plus), 0.0 + 1.0 + 2.0);
    assert_eq!(region.sum_asks(&depth, 18, 40, 0.0, &plus), 8.0 + 9.0);
    assert_eq!(region.sum_asks(&depth, 13, 13, 0.0, &plus), 0.0);
    assert_eq!(region.sum_asks(&depth, 14, 13, 0.0, &plus), 0.0);
    assert_eq!(region.sum_bids(&depth, 13, 11, 0.0, &plus), 3.0 + 2.0 + 1.0);
    assert_eq!(region.sum_bids(&depth, 40, 17, 0.0, &plus), 9.0 + 8.0 + 7.0);
    assert_eq!(region.sum_bids(&depth, 12, 0, 0.0, &plus), 2.0 + 1.0 + 0.0);
    assert_eq!(region.sum_bids(&depth, 12, 13, 0.0, &plus), 0.0);
}

#[test]
fn depth_by_tick_is_summed_within_the_region() {
    let region = Region { roi_lb_tick: 10, roi_ub_tick: 20 };
    let at = |tick: i64| tick as f64;
    assert_eq!(region.sum_asks_at(&at, 5, 13, 0.0, &plus), 10.0 + 11.0 + 12.0);
    assert_eq!(region.sum_asks_at(&at, 19, 40, 0.0, &plus), 19.0);
    assert_eq!(region.sum_bids_at(&at, 40, 18, 0.0, &plus), 20.0 + 19.0 + 18.0);
    assert_eq!(region.sum_bids_at(&at, 12, 0, 0.0, &plus), 12.0 + 11.0 + 10.0);
    assert_eq!(region.sum_bids_at(&at, 12, 12, 0.0, &plus), 12.0);
    assert_eq!(region.sum_bids_at(&at, 12, 13, 0.0, &plus), 0.0);
    let everywhere = Region { roi_lb_tick: i64::MIN, roi_ub_tick: i64::MAX };
    assert_eq!(everywhere.sum_asks_at(&|_: i64| 1.0, i64::MAX, i64::MAX, 0.0, &plus), 0.0);
    assert_eq!(everywhere.sum_bids_at(&|_: i64| 1.0, i64::MIN, i64::MIN, 0.0, &plus), 1.0);
}

#[test]
fn best_bid_at_the_depth_is_counted() {
    // A depth of 0.1% around a mid price of 50.0, in ticks of 0.1.
    let region = Region { roi_lb_tick: 0, roi_ub_tick: 1000 };
    let bid_depth = vec![100.0; 1000];
    let ask_depth = vec![50.0; 1000];
    let bid_tick = (50.0f64 * (1.0 - 0.001) / 0.1).ceil() as i64;
    let ask_tick = (50.0f64 * (1.0 + 0.001) / 0.1).floor() as i64;
    assert_eq!((bid_tick, ask_tick), (500, 500));
    let bids = region.sum_bids(&bid_depth, 500, bid_tick, 0.0, &plus);
    let asks = region.sum_asks(&ask_depth, 501, ask_tick, 0.0, &plus);
    assert_eq!((bids, asks), (100.0, 0.0));
    assert!(bids - asks != 0.0);
    assert_eq!(region.sum_bids_at(&|_: i64| 100.0, 500, bid_tick, 0.0, &plus), 100.0);
    assert_eq!(region.sum_asks_at(&|_: i64| 50.0, 501, ask_tick, 0.0, &plus), 0.0);
    let ask_at_the_depth = vec![0.0, 50.0];
    assert_eq!(region.sum_asks(&ask_at_the_depth, 1, 1, 0.0, &plus), 0.0);
}
