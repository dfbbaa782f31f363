//! Recording service: which rows are written of an event.

use vstd::prelude::*;

use crate::recorder::events::{RecordingEvent, Side};
use crate::recorder::writer::{
    FillRow, OrderRow, PositionRow, StatusRow, WriteCommand, WriterConfig,
};

verus! {

/// Recording service configuration.
#[derive(Debug)]
pub struct ServiceConfig {
    /// Name of the channel for recording events.
    pub ipc_service_name: String,
    /// Writer configuration.
    pub writer: WriterConfig,
}

impl Default for ServiceConfig {
    fn default() -> (r: Self)
        ensures
            r.ipc_service_name@ == "hft_recording"@,
            r.writer.url@ == "http://localhost:8123"@,
            r.writer.database@ == "hft"@,
            r.writer.batch_size == 100,
            r.writer.flush_interval == 5,
    {
        ServiceConfig {
            ipc_service_name: "hft_recording".to_string(),
            writer: WriterConfig::default(),
        }
    }
}

/// The command by which an event is written. `slippage_bps` is the slippage
/// of a fill.
pub fn handle_event<F: Copy>(event: &RecordingEvent<F>, slippage_bps: F) -> (r: WriteCommand<
    OrderRow<F>,
    FillRow<F>,
    PositionRow<F>,
    StatusRow,
>)
    ensures
        match *event {
            RecordingEvent::Order(e) => r == WriteCommand::<
                OrderRow<F>,
                FillRow<F>,
                PositionRow<F>,
                StatusRow,
            >::Order(vstd::std_specs::convert::FromSpec::from_spec(&e)),
            RecordingEvent::Fill(e) => {
                &&& r is Fill
                &&& r->Fill_0.fill_id == e.fill_id
                &&& r->Fill_0.order_id == e.order_id
                &&& r->Fill_0.symbol == e.symbol
                &&& r->Fill_0.side == e.side.code()
                &&& r->Fill_0.price == e.price
                &&& r->Fill_0.qty == e.qty
                &&& r->Fill_0.fee == e.fee
                &&& r->Fill_0.is_maker == (if e.is_maker {
                    1u8
                } else {
                    0u8
                })
                &&& r->Fill_0.exch_time == e.exch_time
                &&& r->Fill_0.local_time == e.timestamp
                &&& r->Fill_0.slippage_bps == slippage_bps
                &&& r->Fill_0.strategy_id == e.strategy_id
            },
            RecordingEvent::Position(e) => r == WriteCommand::<
                OrderRow<F>,
                FillRow<F>,
                PositionRow<F>,
                StatusRow,
            >::Position(vstd::std_specs::convert::FromSpec::from_spec(&e)),
            RecordingEvent::Status(e) => r == WriteCommand::<
                OrderRow<F>,
                FillRow<F>,
                PositionRow<F>,
                StatusRow,
            >::Status(vstd::std_specs::convert::FromSpec::from_spec(&e)),
        },
        match *event {
            RecordingEvent::Order(e) => {
                &&& r is Order
                &&& r->Order_0.order_id == e.order_id
                &&& r->Order_0.symbol@ == e.symbol@
                &&& r->Order_0.side == (if e.side == Side::Buy {
                    1int
                } else {
                    -1int
                })
                &&& r->Order_0.price == e.price
                &&& r->Order_0.qty == e.qty
                &&& r->Order_0.status == e.status.code()
                &&& r->Order_0.create_time == e.timestamp
                &&& r->Order_0.update_time == e.timestamp
                &&& r->Order_0.exch_time == e.exch_time
                &&& r->Order_0.leaves_qty == e.leaves_qty
                &&& r->Order_0.exec_qty == e.exec_qty
                &&& r->Order_0.exec_price == e.exec_price
                &&& r->Order_0.latency_ns == e.latency_ns
                &&& r->Order_0.strategy_id@ == e.strategy_id@
            },
            RecordingEvent::Fill(e) => {
                &&& r is Fill
                &&& r->Fill_0.side == (if e.side == Side::Buy {
                    1int
                } else {
                    -1int
                })
            },
            RecordingEvent::Position(e) => {
                &&& r is Position
                &&& r->Position_0.timestamp == e.timestamp
                &&& r->Position_0.symbol@ == e.symbol@
                &&& r->Position_0.position == e.position
                &&& r->Position_0.avg_price == e.avg_price
                &&& r->Position_0.unrealized_pnl == e.unrealized_pnl
                &&& r->Position_0.realized_pnl == e.realized_pnl
                &&& r->Position_0.strategy_id@ == e.strategy_id@
            },
            RecordingEvent::Status(e) => {
                &&& r is Status
                &&& r->Status_0.timestamp == e.timestamp
                &&& r->Status_0.strategy_id@ == e.strategy_id@
                &&& r->Status_0.status == e.state.code()
                &&& r->Status_0.message@ == e.message@
            },
        },
{
    match event {
        RecordingEvent::Order(e) => WriteCommand::Order(OrderRow::from(e)),
        RecordingEvent::Fill(e) => WriteCommand::Fill(FillRow::new(e, slippage_bps)),
        RecordingEvent::Position(e) => WriteCommand::Position(PositionRow::from(e)),
        RecordingEvent::Status(e) => WriteCommand::Status(StatusRow::from(e)),
    }
}

} // verus!
