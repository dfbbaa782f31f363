//! Rows of the recorded events and their batching.

use vstd::prelude::*;

use crate::clock;
use crate::recorder::events::{FillEvent, OrderUpdate, PositionSnapshot, Side, StrategyStatus};

verus! {

/// Row of the orders table. Times are Unix timestamps in nanoseconds.
#[derive(Debug)]
pub struct OrderRow<F> {
    pub order_id: u64,
    pub symbol: String,
    pub side: i8,
    pub price: F,
    pub qty: F,
    pub status: u8,
    pub create_time: i128,
    pub update_time: i128,
    pub exch_time: i128,
    pub leaves_qty: F,
    pub exec_qty: F,
    pub exec_price: F,
    pub latency_ns: i64,
    pub strategy_id: String,
}

impl<F: Copy> From<&OrderUpdate<F>> for OrderRow<F> {
    fn from(e: &OrderUpdate<F>) -> (r: Self) {
        OrderRow {
            order_id: e.order_id,
            symbol: e.symbol.clone(),
            side: e.side.as_i8(),
            price: e.price,
            qty: e.qty,
            status: e.status.as_u8(),
            create_time: clock::nanos_to_datetime(e.timestamp),
            update_time: clock::nanos_to_datetime(e.timestamp),
            exch_time: clock::nanos_to_datetime(e.exch_time),
            leaves_qty: e.leaves_qty,
            exec_qty: e.exec_qty,
            exec_price: e.exec_price,
            latency_ns: e.latency_ns,
            strategy_id: e.strategy_id.clone(),
        }
    }
}

impl<F: Copy> vstd::std_specs::convert::FromSpecImpl<&OrderUpdate<F>> for OrderRow<F> {
    open spec fn obeys_from_spec() -> bool {
        true
    }

    open spec fn from_spec(e: &OrderUpdate<F>) -> Self {
        OrderRow {
            order_id: e.order_id,
            symbol: e.symbol,
            side: e.side.code(),
            price: e.price,
            qty: e.qty,
            status: e.status.code(),
            create_time: e.timestamp as i128,
            update_time: e.timestamp as i128,
            exch_time: e.exch_time as i128,
            leaves_qty: e.leaves_qty,
            exec_qty: e.exec_qty,
            exec_price: e.exec_price,
            latency_ns: e.latency_ns,
            strategy_id: e.strategy_id,
        }
    }
}

/// Row of the fills table.
#[derive(Debug)]
pub struct FillRow<F> {
    pub fill_id: u64,
    pub order_id: u64,
    pub symbol: String,
    pub side: i8,
    pub price: F,
    pub qty: F,
    pub fee: F,
    pub is_maker: u8,
    pub exch_time: i128,
    pub local_time: i128,
    pub slippage_bps: F,
    pub strategy_id: String,
}

impl<F: Copy> FillRow<F> {
    /// The row of a fill with the given slippage.
    pub fn new(e: &FillEvent<F>, slippage_bps: F) -> (r: Self)
        ensures
            r == (FillRow {
                fill_id: e.fill_id,
                order_id: e.order_id,
                symbol: e.symbol,
                side: e.side.code(),
                price: e.price,
                qty: e.qty,
                fee: e.fee,
                is_maker: if e.is_maker {
                    1
                } else {
                    0
                },
                exch_time: e.exch_time as i128,
                local_time: e.timestamp as i128,
                slippage_bps,
                strategy_id: e.strategy_id,
            }),
    {
        FillRow {
            fill_id: e.fill_id,
            order_id: e.order_id,
            symbol: e.symbol.clone(),
            side: e.side.as_i8(),
            price: e.price,
            qty: e.qty,
            fee: e.fee,
            is_maker: if e.is_maker {
                1
            } else {
                0
            },
            exch_time: clock::nanos_to_datetime(e.exch_time),
            local_time: clock::nanos_to_datetime(e.timestamp),
            slippage_bps,
            strategy_id: e.strategy_id.clone(),
        }
    }
}

/// Row of the positions table.
#[derive(Debug)]
pub struct PositionRow<F> {
    pub timestamp: i128,
    pub symbol: String,
    pub position: F,
    pub avg_price: F,
    pub unrealized_pnl: F,
    pub realized_pnl: F,
    pub strategy_id: String,
}

impl<F: Copy> From<&PositionSnapshot<F>> for PositionRow<F> {
    fn from(e: &PositionSnapshot<F>) -> (r: Self) {
        PositionRow {
            timestamp: clock::nanos_to_datetime(e.timestamp),
            symbol: e.symbol.clone(),
            position: e.position,
            avg_price: e.avg_price,
            unrealized_pnl: e.unrealized_pnl,
            realized_pnl: e.realized_pnl,
            strategy_id: e.strategy_id.clone(),
        }
    }
}

impl<F: Copy> vstd::std_specs::convert::FromSpecImpl<&PositionSnapshot<F>> for PositionRow<F> {
    open spec fn obeys_from_spec() -> bool {
        true
    }

    open spec fn from_spec(e: &PositionSnapshot<F>) -> Self {
        PositionRow {
            timestamp: e.timestamp as i128,
            symbol: e.symbol,
            position: e.position,
            avg_price: e.avg_price,
            unrealized_pnl: e.unrealized_pnl,
            realized_pnl: e.realized_pnl,
            strategy_id: e.strategy_id,
        }
    }
}

/// Row of the strategy status table.
#[derive(Debug)]
pub struct StatusRow {
    pub timestamp: i128,
    pub strategy_id: String,
    pub status: u8,
    pub message: String,
}

impl From<&StrategyStatus> for StatusRow {
    fn from(e: &StrategyStatus) -> (r: Self) {
        StatusRow {
            timestamp: clock::nanos_to_datetime(e.timestamp),
            strategy_id: e.strategy_id.clone(),
            status: e.state.as_u8(),
            message: e.message.clone(),
        }
    }
}

impl vstd::std_specs::convert::FromSpecImpl<&StrategyStatus> for StatusRow {
    open spec fn obeys_from_spec() -> bool {
        true
    }

    open spec fn from_spec(e: &StrategyStatus) -> Self {
        StatusRow {
            timestamp: e.timestamp as i128,
            strategy_id: e.strategy_id,
            status: e.state.code(),
            message: e.message,
        }
    }
}

/// Error type for writer operations.
#[derive(Debug, Clone, Copy, PartialEq, Eq, Structural)]
pub enum WriterError {
    /// The writer channel was closed.
    ChannelClosed,
}

impl WriterError {
    /// The text that the error is shown with.
    pub fn message(&self) -> (r: String)
        ensures
            r@ == "Writer channel closed"@,
    {
        match self {
            WriterError::ChannelClosed => "Writer channel closed".to_string(),
        }
    }
}

/// Configuration for the writer.
#[derive(Debug)]
pub struct WriterConfig {
    /// Database URL (e.g., "http://localhost:8123").
    pub url: String,
    /// Database name.
    pub database: String,
    /// Batch size before flushing.
    pub batch_size: usize,
    /// Seconds before flushing, even if a batch is not full.
    pub flush_interval: u64,
}

impl Default for WriterConfig {
    fn default() -> (r: Self)
        ensures
            r.url@ == "http://localhost:8123"@,
            r.database@ == "hft"@,
            r.batch_size == 100,
            r.flush_interval == 5,
    {
        WriterConfig {
            url: "http://localhost:8123".to_string(),
            database: "hft".to_string(),
            batch_size: 100,
            flush_interval: 5,
        }
    }
}

/// Something for the writer. The parameters are the row types of the four tables.
#[derive(Debug)]
pub enum WriteCommand<O, L, P, S> {
    Order(O),
    Fill(L),
    Position(P),
    Status(S),
    /// Write out all that is pending.
    Flush,
    /// Write out all that is pending and stop.
    Shutdown,
    /// The flush interval has passed.
    Tick,
}

/// Rows to be written now, table by table; a table without rows is left out
/// of the writing.
#[derive(Debug)]
pub struct Flushed<O, L, P, S> {
    pub orders: Vec<O>,
    pub fills: Vec<L>,
    pub positions: Vec<P>,
    pub statuses: Vec<S>,
    /// The writer stops after this.
    pub stop: bool,
}

/// Rows per table.
#[verifier::ext_equal]
pub struct Rows<O, L, P, S> {
    pub orders: Seq<O>,
    pub fills: Seq<L>,
    pub positions: Seq<P>,
    pub statuses: Seq<S>,
}

/// No rows.
pub open spec fn no_rows<O, L, P, S>() -> Rows<O, L, P, S> {
    Rows {
        orders: Seq::empty(),
        fills: Seq::empty(),
        positions: Seq::empty(),
        statuses: Seq::empty(),
    }
}

/// Rows one behind the other, table by table.
pub open spec fn both<O, L, P, S>(a: Rows<O, L, P, S>, b: Rows<O, L, P, S>) -> Rows<O, L, P, S> {
    Rows {
        orders: a.orders + b.orders,
        fills: a.fills + b.fills,
        positions: a.positions + b.positions,
        statuses: a.statuses + b.statuses,
    }
}

/// The rows that a command brings.
pub open spec fn brought<O, L, P, S>(command: WriteCommand<O, L, P, S>) -> Rows<O, L, P, S> {
    match command {
        WriteCommand::Order(row) => Rows { orders: seq![row], ..no_rows() },
        WriteCommand::Fill(row) => Rows { fills: seq![row], ..no_rows() },
        WriteCommand::Position(row) => Rows { positions: seq![row], ..no_rows() },
        WriteCommand::Status(row) => Rows { statuses: seq![row], ..no_rows() },
        _ => no_rows(),
    }
}

impl<O, L, P, S> Flushed<O, L, P, S> {
    /// The rows to be written now.
    pub open spec fn rows(&self) -> Rows<O, L, P, S> {
        Rows {
            orders: self.orders@,
            fills: self.fills@,
            positions: self.positions@,
            statuses: self.statuses@,
        }
    }
}

/// Pending rows, and the rows to be written, after a command: a table is
/// written when its batch is full, all tables on a flush, a tick or the end.
pub open spec fn after_command<O, L, P, S>(
    pending: Rows<O, L, P, S>,
    batch_size: nat,
    command: WriteCommand<O, L, P, S>,
) -> (Rows<O, L, P, S>, Rows<O, L, P, S>) {
    let all = both(pending, brought(command));
    match command {
        WriteCommand::Order(_) => if all.orders.len() >= batch_size {
            (Rows { orders: Seq::empty(), ..all }, Rows { orders: all.orders, ..no_rows() })
        } else {
            (all, no_rows())
        },
        WriteCommand::Fill(_) => if all.fills.len() >= batch_size {
            (Rows { fills: Seq::empty(), ..all }, Rows { fills: all.fills, ..no_rows() })
        } else {
            (all, no_rows())
        },
        WriteCommand::Position(_) => if all.positions.len() >= batch_size {
            (
                Rows { positions: Seq::empty(), ..all },
                Rows { positions: all.positions, ..no_rows() },
            )
        } else {
            (all, no_rows())
        },
        WriteCommand::Status(_) => if all.statuses.len() >= batch_size {
            (Rows { statuses: Seq::empty(), ..all }, Rows { statuses: all.statuses, ..no_rows() })
        } else {
            (all, no_rows())
        },
        WriteCommand::Flush | WriteCommand::Shutdown | WriteCommand::Tick => (no_rows(), all),
    }
}

/// Pending rows of the writer.
pub struct Batches<O, L, P, S> {
    orders: Vec<O>,
    fills: Vec<L>,
    positions: Vec<P>,
    statuses: Vec<S>,
    batch_size: usize,
}

impl<O, L, P, S> View for Batches<O, L, P, S> {
    type V = Rows<O, L, P, S>;

    closed spec fn view(&self) -> Rows<O, L, P, S> {
        Rows {
            orders: self.orders@,
            fills: self.fills@,
            positions: self.positions@,
            statuses: self.statuses@,
        }
    }
}

impl<O, L, P, S> Batches<O, L, P, S> {
    /// Rows per table at which the table is written.
    pub closed spec fn batch_size(&self) -> usize {
        self.batch_size
    }

    pub fn new(batch_size: usize) -> (r: Self)
        ensures
            r@ == no_rows::<O, L, P, S>(),
            r.batch_size() == batch_size,
    {
        Batches {
            orders: Vec::new(),
            fills: Vec::new(),
            positions: Vec::new(),
            statuses: Vec::new(),
            batch_size,
        }
    }

    /// Takes a command and hands out the rows that are to be written now.
    pub fn step(&mut self, command: WriteCommand<O, L, P, S>) -> (r: Flushed<O, L, P, S>)
        ensures
            final(self).batch_size() == old(self).batch_size(),
            (final(self)@, r.rows()) == after_command(
                old(self)@,
                old(self).batch_size() as nat,
                command,
            ),
            r.stop == (command is Shutdown),
    {
        let mut out = Flushed {
            orders: Vec::new(),
            fills: Vec::new(),
            positions: Vec::new(),
            statuses: Vec::new(),
            stop: false,
        };
        let ghost before = self@;
        match command {
            WriteCommand::Order(row) => {
                self.orders.push(row);
                if self.orders.len() >= self.batch_size {
                    out.orders.append(&mut self.orders);
                }
            },
            WriteCommand::Fill(row) => {
                self.fills.push(row);
                if self.fills.len() >= self.batch_size {
                    out.fills.append(&mut self.fills);
                }
            },
            WriteCommand::Position(row) => {
                self.positions.push(row);
                if self.positions.len() >= self.batch_size {
                    out.positions.append(&mut self.positions);
                }
            },
            WriteCommand::Status(row) => {
                self.statuses.push(row);
                if self.statuses.len() >= self.batch_size {
                    out.statuses.append(&mut self.statuses);
                }
            },
            WriteCommand::Flush | WriteCommand::Tick => {
                self.take_all(&mut out);
            },
            WriteCommand::Shutdown => {
                self.take_all(&mut out);
                out.stop = true;
            },
        }
        proof {
            let (pending, written) = after_command(before, self.batch_size as nat, command);
            assert(self@ =~= pending);
            assert(out.rows() =~= written);
        }
        out
    }

    fn take_all(&mut self, out: &mut Flushed<O, L, P, S>)
        requires
            old(out).rows() == no_rows::<O, L, P, S>(),
        ensures
            final(self).batch_size() == old(self).batch_size(),
            final(self)@ == no_rows::<O, L, P, S>(),
            final(out).rows() == old(self)@,
            final(out).stop == old(out).stop,
    {
        let ghost before = self@;
        out.orders.append(&mut self.orders);
        out.fills.append(&mut self.fills);
        out.positions.append(&mut self.positions);
        out.statuses.append(&mut self.statuses);
        assert(self@ =~= no_rows::<O, L, P, S>());
        assert(out.rows() =~= before);
    }
}

/// All rows that a run of commands brings.
pub open spec fn brought_by<O, L, P, S>(commands: Seq<WriteCommand<O, L, P, S>>) -> Rows<
    O,
    L,
    P,
    S,
>
    decreases commands.len(),
{
    if commands.len() == 0 {
        no_rows()
    } else {
        both(brought_by(commands.drop_last()), brought(commands.last()))
    }
}

/// Pending rows, and all rows written, after a run of commands.
pub open spec fn after_commands<O, L, P, S>(
    batch_size: nat,
    commands: Seq<WriteCommand<O, L, P, S>>,
) -> (Rows<O, L, P, S>, Rows<O, L, P, S>)
    decreases commands.len(),
{
    if commands.len() == 0 {
        (no_rows(), no_rows())
    } else {
        let (pending, written) = after_commands(batch_size, commands.drop_last());
        let (next, more) = after_command(pending, batch_size, commands.last());
        (next, both(written, more))
    }
}

/// No row is lost, doubled or put out of order: what has been written,
/// followed by what is pending, is all that was brought. No more rows of a
/// table are pending than a batch leaves open, and nothing is pending after a
/// flush, a tick or the end.
pub proof fn law_no_row_is_lost<O, L, P, S>(
    batch_size: nat,
    commands: Seq<WriteCommand<O, L, P, S>>,
)
    ensures
        ({
            let (pending, written) = after_commands(batch_size, commands);
            &&& both(written, pending) == brought_by(commands)
            &&& pending.orders.len() == 0 || pending.orders.len() < batch_size
            &&& pending.fills.len() == 0 || pending.fills.len() < batch_size
            &&& pending.positions.len() == 0 || pending.positions.len() < batch_size
            &&& pending.statuses.len() == 0 || pending.statuses.len() < batch_size
            &&& commands.len() > 0 && (commands.last() is Flush || commands.last() is Tick
                || commands.last() is Shutdown) ==> pending == no_rows::<O, L, P, S>()
        }),
    decreases commands.len(),
{
    let (pending, written) = after_commands(batch_size, commands);
    if commands.len() > 0 {
        law_no_row_is_lost(batch_size, commands.drop_last());
        assert(both(written, pending) =~= brought_by(commands));
    } else {
        assert(both(written, pending) =~= brought_by(commands));
    }
}

/// The row of an order update says what the update says: prices, quantities,
/// times, side and status each in the column of their name.
pub proof fn law_order_row<F: Copy>(e: OrderUpdate<F>)
    ensures
        ({
            let row: OrderRow<F> = vstd::std_specs::convert::FromSpec::from_spec(&e);
            &&& row.order_id == e.order_id
            &&& row.symbol@ == e.symbol@
            &&& row.side == (if e.side == Side::Buy {
                1int
            } else {
                -1int
            })
            &&& row.price == e.price
            &&& row.qty == e.qty
            &&& row.status == e.status.code()
            &&& row.create_time == e.timestamp
            &&& row.update_time == e.timestamp
            &&& row.exch_time == e.exch_time
            &&& row.leaves_qty == e.leaves_qty
            &&& row.exec_qty == e.exec_qty
            &&& row.exec_price == e.exec_price
            &&& row.latency_ns == e.latency_ns
            &&& row.strategy_id@ == e.strategy_id@
        }),
{
}

/// The rows of a position and of a status say what these say.
pub proof fn law_position_and_status_rows<F: Copy>(p: PositionSnapshot<F>, s: StrategyStatus)
    ensures
        ({
            let row: PositionRow<F> = vstd::std_specs::convert::FromSpec::from_spec(&p);
            &&& row.timestamp == p.timestamp
            &&& row.symbol@ == p.symbol@
            &&& row.position == p.position
            &&& row.avg_price == p.avg_price
            &&& row.unrealized_pnl == p.unrealized_pnl
            &&& row.realized_pnl == p.realized_pnl
            &&& row.strategy_id@ == p.strategy_id@
        }),
        ({
            let row: StatusRow = vstd::std_specs::convert::FromSpec::from_spec(&s);
            &&& row.timestamp == s.timestamp
            &&& row.strategy_id@ == s.strategy_id@
            &&& row.status == s.state.code()
            &&& row.message@ == s.message@
        }),
{
}

/// A command brings its row to its own table and nothing to the others.
pub proof fn law_rows_go_to_their_tables<O, L, P, S>(command: WriteCommand<O, L, P, S>)
    ensures
        ({
            let rows = brought(command);
            &&& rows.orders == (match command {
                WriteCommand::Order(row) => seq![row],
                _ => Seq::empty(),
            })
            &&& rows.fills == (match command {
                WriteCommand::Fill(row) => seq![row],
                _ => Seq::empty(),
            })
            &&& rows.positions == (match command {
                WriteCommand::Position(row) => seq![row],
                _ => Seq::empty(),
            })
            &&& rows.statuses == (match command {
                WriteCommand::Status(row) => seq![row],
                _ => Seq::empty(),
            })
        }),
{
}

/// A table is written exactly when its batch is full or everything is asked
/// for, and then whole; until then its rows stay pending. No other table is
/// written on that account.
pub proof fn law_when_a_table_is_written<O, L, P, S>(
    pending: Rows<O, L, P, S>,
    batch_size: nat,
    command: WriteCommand<O, L, P, S>,
)
    ensures
        ({
            let (after, written) = after_command(pending, batch_size, command);
            let all = command is Flush || command is Tick || command is Shutdown;
            let orders = pending.orders + brought(command).orders;
            let fills = pending.fills + brought(command).fills;
            let positions = pending.positions + brought(command).positions;
            let statuses = pending.statuses + brought(command).statuses;
            &&& is_written(
                orders,
                after.orders,
                written.orders,
                all || (command is Order && orders.len() >= batch_size),
            )
            &&& is_written(
                fills,
                after.fills,
                written.fills,
                all || (command is Fill && fills.len() >= batch_size),
            )
            &&& is_written(
                positions,
                after.positions,
                written.positions,
                all || (command is Position && positions.len() >= batch_size),
            )
            &&& is_written(
                statuses,
                after.statuses,
                written.statuses,
                all || (command is Status && statuses.len() >= batch_size),
            )
        }),
{
    let (after, written) = after_command(pending, batch_size, command);
    assert(both(pending, brought(command)).orders == pending.orders + brought(command).orders);
}

/// All rows of a table are written now, or all of them stay pending.
pub open spec fn is_written<R>(rows: Seq<R>, after: Seq<R>, written: Seq<R>, now: bool) -> bool {
    if now {
        written == rows && after.len() == 0
    } else {
        after == rows && written.len() == 0
    }
}

} // verus!
