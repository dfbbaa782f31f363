//! Event types for order recording. `F` is the type of prices and quantities.

use vstd::prelude::*;

verus! {

/// Side of the order.
#[derive(Clone, Copy, Debug, PartialEq, Eq, Structural)]
pub enum Side {
    Buy,
    Sell,
}

impl Side {
    /// 1 for buys, -1 for sells.
    pub open spec fn code(self) -> i8 {
        match self {
            Side::Buy => 1i8,
            Side::Sell => -1i8 as i8,
        }
    }

    pub fn as_i8(&self) -> (r: i8)
        ensures
            r == self.code(),
    {
        match self {
            Side::Buy => 1,
            Side::Sell => -1,
        }
    }
}

/// Order status.
#[derive(Clone, Copy, Debug, PartialEq, Eq, Structural)]
pub enum OrderStatus {
    New,
    PartiallyFilled,
    Filled,
    Canceled,
    Rejected,
    Expired,
}

impl OrderStatus {
    /// The number that a status is stored as.
    pub open spec fn code(self) -> u8 {
        match self {
            OrderStatus::New => 1,
            OrderStatus::PartiallyFilled => 2,
            OrderStatus::Filled => 3,
            OrderStatus::Canceled => 4,
            OrderStatus::Rejected => 5,
            OrderStatus::Expired => 6,
        }
    }

    /// The name of a status.
    pub open spec fn name(self) -> Seq<char> {
        match self {
            OrderStatus::New => "New"@,
            OrderStatus::PartiallyFilled => "PartiallyFilled"@,
            OrderStatus::Filled => "Filled"@,
            OrderStatus::Canceled => "Canceled"@,
            OrderStatus::Rejected => "Rejected"@,
            OrderStatus::Expired => "Expired"@,
        }
    }

    pub fn as_u8(&self) -> (r: u8)
        ensures
            r == self.code(),
    {
        match self {
            OrderStatus::New => 1,
            OrderStatus::PartiallyFilled => 2,
            OrderStatus::Filled => 3,
            OrderStatus::Canceled => 4,
            OrderStatus::Rejected => 5,
            OrderStatus::Expired => 6,
        }
    }

    pub fn as_str(&self) -> (r: &'static str)
        ensures
            r@ == self.name(),
    {
        match self {
            OrderStatus::New => "New",
            OrderStatus::PartiallyFilled => "PartiallyFilled",
            OrderStatus::Filled => "Filled",
            OrderStatus::Canceled => "Canceled",
            OrderStatus::Rejected => "Rejected",
            OrderStatus::Expired => "Expired",
        }
    }
}

/// Strategy state.
#[derive(Clone, Copy, Debug, PartialEq, Eq, Structural)]
pub enum StrategyState {
    Starting,
    Running,
    Paused,
    Stopping,
    Stopped,
    Error,
}

impl StrategyState {
    /// The number that a state is stored as.
    pub open spec fn code(self) -> u8 {
        match self {
            StrategyState::Starting => 1,
            StrategyState::Running => 2,
            StrategyState::Paused => 3,
            StrategyState::Stopping => 4,
            StrategyState::Stopped => 5,
            StrategyState::Error => 6,
        }
    }

    /// The name of a state.
    pub open spec fn name(self) -> Seq<char> {
        match self {
            StrategyState::Starting => "Starting"@,
            StrategyState::Running => "Running"@,
            StrategyState::Paused => "Paused"@,
            StrategyState::Stopping => "Stopping"@,
            StrategyState::Stopped => "Stopped"@,
            StrategyState::Error => "Error"@,
        }
    }

    pub fn as_u8(&self) -> (r: u8)
        ensures
            r == self.code(),
    {
        match self {
            StrategyState::Starting => 1,
            StrategyState::Running => 2,
            StrategyState::Paused => 3,
            StrategyState::Stopping => 4,
            StrategyState::Stopped => 5,
            StrategyState::Error => 6,
        }
    }

    pub fn as_str(&self) -> (r: &'static str)
        ensures
            r@ == self.name(),
    {
        match self {
            StrategyState::Starting => "Starting",
            StrategyState::Running => "Running",
            StrategyState::Paused => "Paused",
            StrategyState::Stopping => "Stopping",
            StrategyState::Stopped => "Stopped",
            StrategyState::Error => "Error",
        }
    }
}

/// Different sides, statuses and states are stored as different numbers.
pub proof fn law_codes_are_distinct(
    a: Side,
    b: Side,
    s: OrderStatus,
    t: OrderStatus,
    x: StrategyState,
    y: StrategyState,
)
    ensures
        a.code() == b.code() ==> a == b,
        s.code() == t.code() ==> s == t,
        x.code() == y.code() ==> x == y,
{
}

/// The numbers that sides, statuses and states are stored as: 1 and -1 for
/// sides, and from 1 on in the course of an order's and of a strategy's life.
pub proof fn law_codes_of_the_tables(side: Side, status: OrderStatus, state: StrategyState)
    ensures
        side.code() == 1 <==> side == Side::Buy,
        side.code() == -1 <==> side == Side::Sell,
        status.code() == 1 <==> status == OrderStatus::New,
        status.code() == 2 <==> status == OrderStatus::PartiallyFilled,
        status.code() == 3 <==> status == OrderStatus::Filled,
        status.code() == 4 <==> status == OrderStatus::Canceled,
        status.code() == 5 <==> status == OrderStatus::Rejected,
        status.code() == 6 <==> status == OrderStatus::Expired,
        state.code() == 1 <==> state == StrategyState::Starting,
        state.code() == 2 <==> state == StrategyState::Running,
        state.code() == 3 <==> state == StrategyState::Paused,
        state.code() == 4 <==> state == StrategyState::Stopping,
        state.code() == 5 <==> state == StrategyState::Stopped,
        state.code() == 6 <==> state == StrategyState::Error,
{
}

/// The names of statuses and states, by the numbers that they are stored as.
pub proof fn law_names_of_codes(status: OrderStatus, state: StrategyState)
    ensures
        status.code() == 1 ==> status.name() == "New"@,
        status.code() == 2 ==> status.name() == "PartiallyFilled"@,
        status.code() == 3 ==> status.name() == "Filled"@,
        status.code() == 4 ==> status.name() == "Canceled"@,
        status.code() == 5 ==> status.name() == "Rejected"@,
        status.code() == 6 ==> status.name() == "Expired"@,
        state.code() == 1 ==> state.name() == "Starting"@,
        state.code() == 2 ==> state.name() == "Running"@,
        state.code() == 3 ==> state.name() == "Paused"@,
        state.code() == 4 ==> state.name() == "Stopping"@,
        state.code() == 5 ==> state.name() == "Stopped"@,
        state.code() == 6 ==> state.name() == "Error"@,
{
}

/// Order update event, sent when order status changes.
#[derive(Debug)]
pub struct OrderUpdate<F> {
    /// Local timestamp (nanoseconds).
    pub timestamp: i64,
    /// Strategy identifier.
    pub strategy_id: String,
    /// Order ID.
    pub order_id: u64,
    /// Trading symbol.
    pub symbol: String,
    /// Order side.
    pub side: Side,
    /// Order price.
    pub price: F,
    /// Order quantity.
    pub qty: F,
    /// Current order status.
    pub status: OrderStatus,
    /// Previous order status.
    pub prev_status: OrderStatus,
    /// Remaining quantity.
    pub leaves_qty: F,
    /// Executed quantity.
    pub exec_qty: F,
    /// Average execution price.
    pub exec_price: F,
    /// Exchange timestamp (nanoseconds).
    pub exch_time: i64,
    /// Round-trip latency (nanoseconds).
    pub latency_ns: i64,
}

/// Fill event, sent when order is (partially) filled.
#[derive(Debug)]
pub struct FillEvent<F> {
    /// Local timestamp (nanoseconds).
    pub timestamp: i64,
    /// Strategy identifier.
    pub strategy_id: String,
    /// Fill ID (unique).
    pub fill_id: u64,
    /// Order ID.
    pub order_id: u64,
    /// Trading symbol.
    pub symbol: String,
    /// Order side.
    pub side: Side,
    /// Fill price.
    pub price: F,
    /// Fill quantity.
    pub qty: F,
    /// Trading fee.
    pub fee: F,
    /// Whether this was a maker fill.
    pub is_maker: bool,
    /// Exchange timestamp (nanoseconds).
    pub exch_time: i64,
    /// Mid price at fill time (for slippage calculation).
    pub mid_price: F,
}

/// Position snapshot, sent periodically or on position change.
#[derive(Debug)]
pub struct PositionSnapshot<F> {
    /// Local timestamp (nanoseconds).
    pub timestamp: i64,
    /// Strategy identifier.
    pub strategy_id: String,
    /// Trading symbol.
    pub symbol: String,
    /// Current position (positive = long, negative = short).
    pub position: F,
    /// Average entry price.
    pub avg_price: F,
    /// Current mid price.
    pub mid_price: F,
    /// Unrealized PnL.
    pub unrealized_pnl: F,
    /// Realized PnL.
    pub realized_pnl: F,
}

/// Strategy status event, sent on state changes.
#[derive(Debug)]
pub struct StrategyStatus {
    /// Local timestamp (nanoseconds).
    pub timestamp: i64,
    /// Strategy identifier.
    pub strategy_id: String,
    /// Current state.
    pub state: StrategyState,
    /// Optional message.
    pub message: String,
}

/// Recording event: union of all event types.
#[derive(Debug)]
pub enum RecordingEvent<F> {
    Order(OrderUpdate<F>),
    Fill(FillEvent<F>),
    Position(PositionSnapshot<F>),
    Status(StrategyStatus),
}

impl<F> RecordingEvent<F> {
    pub fn timestamp(&self) -> (r: i64)
        ensures
            r == (match *self {
                RecordingEvent::Order(e) => e.timestamp,
                RecordingEvent::Fill(e) => e.timestamp,
                RecordingEvent::Position(e) => e.timestamp,
                RecordingEvent::Status(e) => e.timestamp,
            }),
    {
        match self {
            RecordingEvent::Order(e) => e.timestamp,
            RecordingEvent::Fill(e) => e.timestamp,
            RecordingEvent::Position(e) => e.timestamp,
            RecordingEvent::Status(e) => e.timestamp,
        }
    }

    pub fn strategy_id(&self) -> (r: &str)
        ensures
            r@ == (match *self {
                RecordingEvent::Order(e) => e.strategy_id@,
                RecordingEvent::Fill(e) => e.strategy_id@,
                RecordingEvent::Position(e) => e.strategy_id@,
                RecordingEvent::Status(e) => e.strategy_id@,
            }),
    {
        match self {
            RecordingEvent::Order(e) => e.strategy_id.as_str(),
            RecordingEvent::Fill(e) => e.strategy_id.as_str(),
            RecordingEvent::Position(e) => e.strategy_id.as_str(),
            RecordingEvent::Status(e) => e.strategy_id.as_str(),
        }
    }
}

/// Most bytes that a message holds.
pub const MAX_SIZE: usize = 1024;

/// Message of fixed size around an encoded event.
#[derive(Debug)]
pub struct RecordingMessage {
    /// Message length.
    pub len: u32,
    /// Encoded event, then zeros.
    pub data: [u8; 1024],
}

/// The encoded event does not fit into a message.
#[derive(Debug, Clone, Copy, PartialEq, Eq, Structural)]
pub struct MessageTooLarge;

impl RecordingMessage {
    /// The length is within the message.
    pub open spec fn wf(&self) -> bool {
        self.len <= MAX_SIZE
    }

    /// The bytes of the encoded event.
    pub open spec fn bytes(&self) -> Seq<u8> {
        self.data@.take(self.len as int)
    }

    /// Frames an encoded event.
    pub fn new(encoded: &[u8]) -> (r: Result<Self, MessageTooLarge>)
        ensures
            match r {
                Ok(message) => {
                    &&& encoded@.len() <= MAX_SIZE
                    &&& message.wf()
                    &&& message.bytes() == encoded@
                    &&& message.len == encoded@.len()
                    &&& forall|i: int|
                        0 <= i < encoded@.len() ==> message.data@[i] == #[trigger] encoded@[i]
                    &&& forall|i: int| message.len <= i < MAX_SIZE ==> message.data@[i] == 0
                },
                Err(_) => encoded@.len() > MAX_SIZE,
            },
    {
        if encoded.len() > MAX_SIZE {
            return Err(MessageTooLarge);
        }
        let n: usize = encoded.len();
        let mut data: [u8; 1024] = [0u8; 1024];
        let mut i: usize = 0;
        while i < n
            invariant
                i <= n,
                n == encoded@.len(),
                n <= MAX_SIZE,
                forall|j: int| 0 <= j < i ==> data@[j] == encoded@[j],
                forall|j: int| i <= j < MAX_SIZE ==> data@[j] == 0,
            decreases n - i,
        {
            data[i] = encoded[i];
            i += 1;
        }
        assert(data@.take(n as int) =~= encoded@);
        Ok(RecordingMessage { len: n as u32, data })
    }

    /// The bytes of the encoded event.
    pub fn payload(&self) -> (r: Vec<u8>)
        requires
            self.wf(),
        ensures
            r@ == self.bytes(),
            r@.len() == self.len,
            forall|i: int| 0 <= i < r@.len() ==> #[trigger] r@[i] == self.data@[i],
    {
        let mut r: Vec<u8> = Vec::new();
        let n: usize = self.len as usize;
        let mut i: usize = 0;
        while i < n
            invariant
                i <= n,
                n <= MAX_SIZE,
                n == self.len,
                r@ == self.data@.take(i as int),
            decreases n - i,
        {
            r.push(self.data[i]);
            i += 1;
            assert(r@ =~= self.data@.take(i as int));
        }
        r
    }
}

impl Default for RecordingMessage {
    fn default() -> (r: Self)
        ensures
            r.len == 0,
            r.wf(),
            forall|i: int| 0 <= i < MAX_SIZE ==> r.data@[i] == 0,
    {
        RecordingMessage { len: 0, data: [0u8; 1024] }
    }
}

} // verus!
