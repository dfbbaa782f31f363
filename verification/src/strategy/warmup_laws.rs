//! What warming up has from the collector.

use vstd::prelude::*;

use crate::collector::ipc;
use crate::collector::ipc::{FeedModel, RecordModel};
use crate::data::tardis_fast;
use crate::decode;
use crate::strategy::warmup;
use crate::strategy::warmup::{DepthUpdateData, DepthUpdateModel, LineReaders};
use crate::text::LevelText;
use crate::types::{Event, BUY_EVENT, DEPTH_EVENT, DEPTH_SNAPSHOT_EVENT};

verus! {

/// The depth record that warming up reads of what is collected.
pub open spec fn read_record(r: RecordModel) -> Option<DepthUpdateModel> {
    match r {
        RecordModel::Depth { event, event_time, bids, asks, .. } => Some(
            DepthUpdateModel { event, event_time: event_time as i64, bids, asks },
        ),
        _ => None,
    }
}

proof fn lemma_one_level<
    F,
    D: Fn(&str) -> Option<DepthUpdateData>,
    T: Fn(&str) -> bool,
    P: Fn(&str) -> Option<F>,
    C: Fn(F) -> bool,
>(level: LevelText, ev: u64, exch_ts: int, local_ts: i64, n: LineReaders<F, D, T, P, C>)
    ensures
        warmup::level_events(seq![level], ev, exch_ts, local_ts, n) == (if decode::value_checked(
            n.positive,
            tardis_fast::number_or_zero(n.parse, level.0, n.zero),
        ) {
            seq![
                Event {
                    ev,
                    exch_ts: exch_ts as i64,
                    local_ts,
                    px: tardis_fast::number_or_zero(n.parse, level.0, n.zero),
                    qty: tardis_fast::number_or_zero(n.parse, level.1, n.zero),
                    order_id: 0,
                    ival: 0,
                    fval: n.zero,
                },
            ]
        } else {
            Seq::empty()
        }),
        warmup::level_events(Seq::<LevelText>::empty(), ev, exch_ts, local_ts, n)
            == Seq::<Event<F>>::empty(),
{
    let all = seq![level];
    assert(all.drop_last() =~= Seq::empty());
    assert(warmup::level_events(all.drop_last(), ev, exch_ts, local_ts, n) =~= Seq::empty());
}

/// A depth event that is collected from a connector comes back as one event
/// when its record is read for warming up: the same side and kind, price and
/// quantity as their texts say, and the time in whole milliseconds. Where the
/// price is not above zero there is none.
pub proof fn law_collected_depth_is_replayed<
    F,
    D: Fn(&str) -> Option<DepthUpdateData>,
    T: Fn(&str) -> bool,
    P: Fn(&str) -> Option<F>,
    C: Fn(F) -> bool,
>(symbol: Seq<char>, e: FeedModel, local_ts: i64, n: LineReaders<F, D, T, P, C>)
    requires
        e.ev & 0xFF == DEPTH_EVENT || e.ev & 0xFF == DEPTH_SNAPSHOT_EVENT,
    ensures
        ({
            let px = tardis_fast::number_or_zero(n.parse, e.px, n.zero);
            let qty = tardis_fast::number_or_zero(n.parse, e.qty, n.zero);
            let record = ipc::record_of(symbol, e);
            &&& record is Some
            &&& read_record(record->0) is Some
            &&& warmup::record_events(read_record(record->0)->0, local_ts, n) == (
            if decode::value_checked(n.positive, px) {
                seq![
                    Event {
                        ev: (e.ev & 0xFF) | (e.ev & BUY_EVENT),
                        exch_ts: (ipc::whole_millis(e.exch_ts) * 1_000_000) as i64,
                        local_ts,
                        px,
                        qty,
                        order_id: 0,
                        ival: 0,
                        fval: n.zero,
                    },
                ]
            } else {
                Seq::empty()
            })
        }),
{
    reveal_strlit("depthSnapshot");
    reveal_strlit("depthUpdate");
    assert("depthSnapshot"@ != "depthUpdate"@) by {
        assert("depthSnapshot"@.len() != "depthUpdate"@.len());
    }
    let ev = e.ev;
    let kind = ev & 0xFF;
    assert(ev & 0x2000_0000 == 0 || ev & 0x2000_0000 == 0x2000_0000) by (bit_vector);
    assert(kind | 0 == kind) by (bit_vector);
    let record = ipc::record_of(symbol, e)->0;
    let m = read_record(record)->0;
    let level: LevelText = (e.px, e.qty);
    let exch_ts = m.event_time * 1_000_000;
    lemma_one_level(level, kind | BUY_EVENT, exch_ts, local_ts, n);
    lemma_one_level(level, kind, exch_ts, local_ts, n);
    let bids = warmup::level_events(m.bids, kind | BUY_EVENT, exch_ts, local_ts, n);
    let asks = warmup::level_events(m.asks, kind, exch_ts, local_ts, n);
    assert(warmup::record_events(m, local_ts, n) == bids + asks);
    if ev & BUY_EVENT != 0 {
        assert(bids + asks =~= bids);
    } else {
        assert(bids + asks =~= asks);
    }
}

} // verus!
