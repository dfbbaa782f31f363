//! Grid of orders: which orders are cancelled and which are submitted.

use vstd::prelude::*;

use crate::recorder::convert::HftSide;
use crate::strategy::grid_laws;

verus! {

/// What is read of a working order. `expired` tells whether it has lived at
/// least as long as orders have to before they are cancelled.
#[derive(Debug, Clone, Copy)]
pub struct WorkingOrder {
    pub order_id: u64,
    pub side: HftSide,
    pub cancellable: bool,
    pub expired: bool,
}

/// The identifiers of a grid.
pub open spec fn grid_ids<F>(grid: Seq<(u64, F)>) -> Set<u64> {
    Set::new(|id: u64| exists|i: int| 0 <= i < grid.len() && (#[trigger] grid[i]).0 == id)
}

/// Tells whether a grid has an order with this identifier.
fn in_grid<F: Copy>(grid: &Vec<(u64, F)>, id: u64) -> (r: bool)
    ensures
        r == grid_ids(grid@).contains(id),
{
    let mut i: usize = 0;
    while i < grid.len()
        invariant
            i <= grid@.len(),
            forall|j: int| 0 <= j < i ==> (#[trigger] grid@[j]).0 != id,
        decreases grid@.len() - i,
    {
        if grid[i].0 == id {
            return true;
        }
        i += 1;
    }
    false
}

/// `next` gives the price of the next level and `tick_of` the identifier of a
/// price; both may be called on every price and depend on it alone.
pub open spec fn steps<F, N: Fn(F) -> F, T: Fn(F) -> u64>(next: N, tick_of: T) -> bool {
    &&& forall|px: F| #[trigger] call_requires(next, (px,))
    &&& forall|px: F| #[trigger] call_requires(tick_of, (px,))
    &&& forall|px: F, a: F, b: F| #[trigger]
        call_ensures(next, (px,), a) && #[trigger] call_ensures(next, (px,), b) ==> a == b
    &&& forall|px: F, a: u64, b: u64| #[trigger]
        call_ensures(tick_of, (px,), a) && #[trigger] call_ensures(tick_of, (px,), b) ==> a == b
}

/// The price of the level after one with this price.
pub open spec fn next_price<F, N: Fn(F) -> F>(next: N, px: F) -> F {
    choose|r: F| call_ensures(next, (px,), r)
}

/// The identifier of a price.
pub open spec fn price_id<F, T: Fn(F) -> u64>(tick_of: T, px: F) -> u64 {
    choose|r: u64| call_ensures(tick_of, (px,), r)
}

/// The price of the level at `i`.
pub open spec fn level_price<F, N: Fn(F) -> F>(next: N, first: F, i: nat) -> F
    decreases i,
{
    if i == 0 {
        first
    } else {
        next_price(next, level_price(next, first, (i - 1) as nat))
    }
}

/// The levels of a side of the grid, beginning at a price; none where the side
/// is closed.
pub open spec fn levels_from<F, N: Fn(F) -> F, T: Fn(F) -> u64>(
    open: bool,
    first: F,
    num: nat,
    next: N,
    tick_of: T,
) -> Seq<(u64, F)> {
    if open {
        Seq::new(
            num,
            |i: int|
                (
                    price_id(tick_of, level_price(next, first, i as nat)),
                    level_price(next, first, i as nat),
                ),
        )
    } else {
        Seq::empty()
    }
}

/// Builds the levels of a side of the grid.
pub fn grid_levels<F: Copy, N: Fn(F) -> F, T: Fn(F) -> u64>(
    open: bool,
    first: F,
    num: usize,
    next: &N,
    tick_of: &T,
) -> (r: Vec<(u64, F)>)
    requires
        steps::<F, N, T>(*next, *tick_of),
    ensures
        r@ == levels_from(open, first, num as nat, *next, *tick_of),
{
    let mut r: Vec<(u64, F)> = Vec::new();
    if !open {
        assert(r@ =~= Seq::empty());
        return r;
    }
    let mut px = first;
    let mut i: usize = 0;
    while i < num
        invariant
            steps::<F, N, T>(*next, *tick_of),
            i <= num,
            px == level_price(*next, first, i as nat),
            r@.len() == i,
            forall|j: int|
                0 <= j < i ==> #[trigger] r@[j] == (
                    price_id(*tick_of, level_price(*next, first, j as nat)),
                    level_price(*next, first, j as nat),
                ),
        decreases num - i,
    {
        let id: u64 = tick_of(px);
        assert(call_ensures(*tick_of, (px,), price_id(*tick_of, px)));
        r.push((id, px));
        let after = next(px);
        assert(call_ensures(*next, (px,), next_price(*next, px)));
        px = after;
        i += 1;
    }
    r
}

/// The orders of a grid by identifier; of two levels with one identifier the
/// later one counts.
pub open spec fn grid_map<F>(levels: Seq<(u64, F)>) -> Map<u64, F>
    decreases levels.len(),
{
    if levels.len() == 0 {
        Map::empty()
    } else {
        grid_map(levels.drop_last()).insert(levels.last().0, levels.last().1)
    }
}

/// No identifier occurs twice.
pub open spec fn distinct_ids<F>(grid: Seq<(u64, F)>) -> bool {
    forall|i: int, j: int|
        0 <= i < grid.len() && 0 <= j < grid.len() && (#[trigger] grid[i]).0 == (
        #[trigger] grid[j]).0 ==> i == j
}

/// Collects grid levels into orders with distinct identifiers.
pub fn collect_grid<F: Copy>(levels: &Vec<(u64, F)>) -> (r: Vec<(u64, F)>)
    ensures
        distinct_ids(r@),
        grid_map(r@) == grid_map(levels@),
{
    let mut r: Vec<(u64, F)> = Vec::new();
    let mut i: usize = 0;
    assert(levels@.take(0) =~= Seq::empty());
    while i < levels.len()
        invariant
            i <= levels@.len(),
            distinct_ids(r@),
            grid_map(r@) == grid_map(levels@.take(i as int)),
        decreases levels@.len() - i,
    {
        let (id, px) = levels[i];
        assert(levels@.take(i as int + 1).drop_last() =~= levels@.take(i as int));
        let ghost before = r@;
        let mut k: usize = 0;
        while k < r.len() && r[k].0 != id
            invariant
                r@ == before,
                k <= r@.len(),
                forall|j: int| 0 <= j < k ==> (#[trigger] r@[j]).0 != id,
            decreases r@.len() - k,
        {
            k += 1;
        }
        if k < r.len() {
            r[k] = (id, px);
            proof {
                lemma_grid_map_update(before, k as int, px);
                assert forall|a: int, b: int|
                    0 <= a < r@.len() && 0 <= b < r@.len() && (#[trigger] r@[a]).0 == (
                    #[trigger] r@[b]).0 implies a == b by {
                    assert(before[a].0 == before[b].0);
                }
            }
        } else {
            r.push((id, px));
            proof {
                assert(r@.drop_last() =~= before);
                assert forall|a: int, b: int|
                    0 <= a < r@.len() && 0 <= b < r@.len() && (#[trigger] r@[a]).0 == (
                    #[trigger] r@[b]).0 implies a == b by {
                    if a < before.len() && b < before.len() {
                        assert(before[a].0 == before[b].0);
                    } else if a < before.len() {
                        assert(before[a].0 != id);
                    } else if b < before.len() {
                        assert(before[b].0 != id);
                    }
                }
            }
        }
        i += 1;
    }
    assert(levels@.take(i as int) =~= levels@);
    r
}

proof fn lemma_grid_map_update<F>(grid: Seq<(u64, F)>, k: int, px: F)
    requires
        distinct_ids(grid),
        0 <= k < grid.len(),
    ensures
        grid_map(grid.update(k, (grid[k].0, px))) == grid_map(grid).insert(grid[k].0, px),
    decreases grid.len(),
{
    let id = grid[k].0;
    let after = grid.update(k, (id, px));
    let front = grid.drop_last();
    if k == grid.len() - 1 {
        assert(after.drop_last() =~= front);
        assert(grid_map(after) =~= grid_map(grid).insert(id, px));
    } else {
        assert(after.drop_last() =~= front.update(k, (id, px)));
        assert forall|a: int, b: int|
            0 <= a < front.len() && 0 <= b < front.len() && (#[trigger] front[a]).0 == (
            #[trigger] front[b]).0 implies a == b by {
            assert(grid[a].0 == grid[b].0);
        }
        lemma_grid_map_update(front, k, px);
        assert(grid[k].0 != grid[grid.len() - 1].0);
        assert(grid_map(after) =~= grid_map(grid).insert(id, px));
    }
}

/// The order stands on a side of the book but no longer in that side's grid.
pub open spec fn dominated(o: WorkingOrder, bids: Set<u64>, asks: Set<u64>) -> bool {
    match o.side {
        HftSide::Buy => !bids.contains(o.order_id),
        HftSide::Sell => !asks.contains(o.order_id),
        _ => false,
    }
}

/// The order is cancelled.
pub open spec fn is_cancelled(o: WorkingOrder, bids: Set<u64>, asks: Set<u64>) -> bool {
    o.cancellable && dominated(o, bids, asks) && o.expired
}

/// The identifiers of the cancelled orders, in turn.
pub open spec fn cancelled_ids(
    orders: Seq<WorkingOrder>,
    bids: Set<u64>,
    asks: Set<u64>,
) -> Seq<u64>
    decreases orders.len(),
{
    if orders.len() == 0 {
        Seq::empty()
    } else {
        let front = cancelled_ids(orders.drop_last(), bids, asks);
        if is_cancelled(orders.last(), bids, asks) {
            front.push(orders.last().order_id)
        } else {
            front
        }
    }
}

/// Kept orders of a side less its cancelled ones.
pub open spec fn balance(
    orders: Seq<WorkingOrder>,
    side: HftSide,
    bids: Set<u64>,
    asks: Set<u64>,
) -> int
    decreases orders.len(),
{
    if orders.len() == 0 {
        0
    } else {
        let o = orders.last();
        balance(orders.drop_last(), side, bids, asks) + (if !o.cancellable || o.side != side {
            0int
        } else if is_cancelled(o, bids, asks) {
            -1int
        } else {
            1int
        })
    }
}

/// How many orders count as held on a side.
pub open spec fn holding(
    orders: Seq<WorkingOrder>,
    side: HftSide,
    bids: Set<u64>,
    asks: Set<u64>,
) -> int {
    let b = balance(orders, side, bids, asks);
    if b > 0 {
        b
    } else {
        0
    }
}

/// Which orders are cancelled, and how many count as held on each side.
#[derive(Debug)]
pub struct CancelPlan {
    pub cancel: Vec<u64>,
    pub holding_buys: i32,
    pub holding_sells: i32,
}

/// Plans the cancellations: cancellable orders that are in their side's grid
/// no longer and have lived long enough.
pub fn plan_cancels<F: Copy>(
    orders: &Vec<WorkingOrder>,
    new_bid_orders: &Vec<(u64, F)>,
    new_ask_orders: &Vec<(u64, F)>,
) -> (r: CancelPlan)
    requires
        orders@.len() <= i32::MAX,
    ensures
        r.cancel@ == cancelled_ids(
            orders@,
            grid_ids(new_bid_orders@),
            grid_ids(new_ask_orders@),
        ),
        r.holding_buys == holding(
            orders@,
            HftSide::Buy,
            grid_ids(new_bid_orders@),
            grid_ids(new_ask_orders@),
        ),
        r.holding_sells == holding(
            orders@,
            HftSide::Sell,
            grid_ids(new_bid_orders@),
            grid_ids(new_ask_orders@),
        ),
{
    let ghost bids = grid_ids(new_bid_orders@);
    let ghost asks = grid_ids(new_ask_orders@);
    let mut cancel: Vec<u64> = Vec::new();
    let mut buys: i32 = 0;
    let mut sells: i32 = 0;
    let mut i: usize = 0;
    assert(orders@.take(0) =~= Seq::empty());
    while i < orders.len()
        invariant
            i <= orders@.len() <= i32::MAX,
            bids == grid_ids(new_bid_orders@),
            asks == grid_ids(new_ask_orders@),
            cancel@ == cancelled_ids(orders@.take(i as int), bids, asks),
            buys == balance(orders@.take(i as int), HftSide::Buy, bids, asks),
            sells == balance(orders@.take(i as int), HftSide::Sell, bids, asks),
            -i <= buys <= i,
            -i <= sells <= i,
        decreases orders@.len() - i,
    {
        let order = orders[i];
        assert(orders@.take(i as int + 1).drop_last() =~= orders@.take(i as int));
        if order.cancellable {
            let dominated: bool = match order.side {
                HftSide::Buy => !in_grid(new_bid_orders, order.order_id),
                HftSide::Sell => !in_grid(new_ask_orders, order.order_id),
                _ => false,
            };
            if dominated && order.expired {
                cancel.push(order.order_id);
                match order.side {
                    HftSide::Buy => {
                        buys = buys - 1;
                    },
                    HftSide::Sell => {
                        sells = sells - 1;
                    },
                    _ => {},
                }
            } else {
                match order.side {
                    HftSide::Buy => {
                        buys = buys + 1;
                    },
                    HftSide::Sell => {
                        sells = sells + 1;
                    },
                    _ => {},
                }
            }
        }
        i += 1;
    }
    assert(orders@.take(i as int) =~= orders@);
    CancelPlan {
        cancel,
        holding_buys: if buys > 0 {
            buys
        } else {
            0
        },
        holding_sells: if sells > 0 {
            sells
        } else {
            0
        },
    }
}

/// The orders of a grid that do not exist yet.
pub open spec fn missing<F>(grid: Seq<(u64, F)>, existing: Seq<u64>) -> Seq<(u64, F)>
    decreases grid.len(),
{
    if grid.len() == 0 {
        Seq::empty()
    } else {
        let front = missing(grid.drop_last(), existing);
        if existing.contains(grid.last().0) {
            front
        } else {
            front.push(grid.last())
        }
    }
}

proof fn lemma_missing_len<F>(grid: Seq<(u64, F)>, existing: Seq<u64>)
    ensures
        missing(grid, existing).len() <= grid.len(),
    decreases grid.len(),
{
    if grid.len() > 0 {
        lemma_missing_len(grid.drop_last(), existing);
    }
}

/// Plans the submissions of a side: the orders of its grid that do not exist
/// yet, where the position allows for more.
pub fn plan_submissions<F: Copy>(
    new_orders: &Vec<(u64, F)>,
    existing_order_ids: &Vec<u64>,
    allowed: bool,
) -> (r: Vec<(u64, F)>)
    ensures
        r@ == (if allowed {
            missing(new_orders@, existing_order_ids@)
        } else {
            Seq::empty()
        }),
        allowed ==> forall|i: int|
            0 <= i < new_orders@.len() && !existing_order_ids@.contains(new_orders@[i].0)
                ==> r@.contains(#[trigger] new_orders@[i]),
        !allowed ==> r@.len() == 0,
        r@.len() <= new_orders@.len(),
{
    proof {
        grid_laws::law_every_missing_order_is_submitted(new_orders@, existing_order_ids@);
        lemma_missing_len(new_orders@, existing_order_ids@);
    }
    let mut r: Vec<(u64, F)> = Vec::new();
    if !allowed {
        assert(r@ =~= Seq::empty());
        return r;
    }
    let mut i: usize = 0;
    assert(new_orders@.take(0) =~= Seq::empty());
    while i < new_orders.len()
        invariant
            i <= new_orders@.len(),
            r@ == missing(new_orders@.take(i as int), existing_order_ids@),
        decreases new_orders@.len() - i,
    {
        let order = new_orders[i];
        assert(new_orders@.take(i as int + 1).drop_last() =~= new_orders@.take(i as int));
        let mut found: bool = false;
        let mut k: usize = 0;
        while k < existing_order_ids.len() && !found
            invariant
                k <= existing_order_ids@.len(),
                found == exists|j: int| 0 <= j < k && existing_order_ids@[j] == order.0,
            decreases existing_order_ids@.len() - k,
        {
            if existing_order_ids[k] == order.0 {
                found = true;
            }
            k += 1;
        }
        assert(found == existing_order_ids@.contains(order.0));
        if !found {
            r.push(order);
        }
        i += 1;
    }
    assert(new_orders@.take(i as int) =~= new_orders@);
    r
}

/// How the prices of a grid's levels follow from each other.
pub struct GridSteps<NB, NA, T> {
    /// Price of the bid level below one.
    pub next_bid: NB,
    /// Price of the ask level above one.
    pub next_ask: NA,
    /// Identifier of a price.
    pub tick_of: T,
}

/// Where the two sides of a grid begin, and whether the position allows for
/// orders on them.
#[derive(Debug)]
pub struct GridStart<F> {
    pub bid_price: F,
    pub bids_open: bool,
    pub ask_price: F,
    pub asks_open: bool,
    /// Levels on each side.
    pub num: usize,
}

/// New orders by identifier, orders to be cancelled, and how many count as
/// held on each side.
#[derive(Debug)]
pub struct GridPlan<F> {
    pub bids: Vec<(u64, F)>,
    pub asks: Vec<(u64, F)>,
    pub cancels: CancelPlan,
}

/// Plans a grid of orders and the cancellations that it asks for.
pub fn plan_grid<F: Copy, NB: Fn(F) -> F, NA: Fn(F) -> F, T: Fn(F) -> u64>(
    orders: &Vec<WorkingOrder>,
    start: &GridStart<F>,
    grid_steps: &GridSteps<NB, NA, T>,
) -> (r: GridPlan<F>)
    requires
        orders@.len() <= i32::MAX,
        steps::<F, NB, T>(grid_steps.next_bid, grid_steps.tick_of),
        steps::<F, NA, T>(grid_steps.next_ask, grid_steps.tick_of),
    ensures
        distinct_ids(r.bids@),
        distinct_ids(r.asks@),
        grid_map(r.bids@) == grid_map(
            levels_from(
                start.bids_open,
                start.bid_price,
                start.num as nat,
                grid_steps.next_bid,
                grid_steps.tick_of,
            ),
        ),
        grid_map(r.asks@) == grid_map(
            levels_from(
                start.asks_open,
                start.ask_price,
                start.num as nat,
                grid_steps.next_ask,
                grid_steps.tick_of,
            ),
        ),
        r.cancels.cancel@ == cancelled_ids(orders@, grid_ids(r.bids@), grid_ids(r.asks@)),
        r.cancels.holding_buys == holding(
            orders@,
            HftSide::Buy,
            grid_ids(r.bids@),
            grid_ids(r.asks@),
        ),
        r.cancels.holding_sells == holding(
            orders@,
            HftSide::Sell,
            grid_ids(r.bids@),
            grid_ids(r.asks@),
        ),
{
    let bid_levels = grid_levels(
        start.bids_open,
        start.bid_price,
        start.num,
        &grid_steps.next_bid,
        &grid_steps.tick_of,
    );
    let ask_levels = grid_levels(
        start.asks_open,
        start.ask_price,
        start.num,
        &grid_steps.next_ask,
        &grid_steps.tick_of,
    );
    let bids = collect_grid(&bid_levels);
    let asks = collect_grid(&ask_levels);
    let cancels = plan_cancels(orders, &bids, &asks);
    GridPlan { bids, asks, cancels }
}

impl<F: Copy> GridPlan<F> {
    /// The bids and the asks to be submitted, by the orders that exist after
    /// the cancellations and whether the positions allow for more.
    pub fn submissions(
        &self,
        existing_order_ids: &Vec<u64>,
        buys_allowed: bool,
        sells_allowed: bool,
    ) -> (r: (Vec<(u64, F)>, Vec<(u64, F)>))
        ensures
            r.0@ == (if buys_allowed {
                missing(self.bids@, existing_order_ids@)
            } else {
                Seq::empty()
            }),
            r.1@ == (if sells_allowed {
                missing(self.asks@, existing_order_ids@)
            } else {
                Seq::empty()
            }),
    {
        (
            plan_submissions(&self.bids, existing_order_ids, buys_allowed),
            plan_submissions(&self.asks, existing_order_ids, sells_allowed),
        )
    }
}

/// Identifier of the order that closes the position on a stop loss.
pub const CLOSE_ORDER_ID: u64 = 519;

/// How a position is closed.
#[derive(Debug, Clone, Copy, PartialEq, Eq, Structural)]
pub enum Closing {
    /// There is no position to speak of.
    Nothing,
    /// A long position is sold.
    Sell,
    /// A short position is bought back.
    Buy,
}

/// Chooses how a position is closed: not at all where it is too small,
/// else against its direction.
pub fn close_position(significant: bool, long: bool) -> (r: Closing)
    ensures
        r == (if !significant {
            Closing::Nothing
        } else if long {
            Closing::Sell
        } else {
            Closing::Buy
        }),
{
    if !significant {
        Closing::Nothing
    } else if long {
        Closing::Sell
    } else {
        Closing::Buy
    }
}

/// The identifiers of all cancellable orders, in turn.
pub open spec fn cancellable_ids(orders: Seq<WorkingOrder>) -> Seq<u64>
    decreases orders.len(),
{
    if orders.len() == 0 {
        Seq::empty()
    } else {
        let front = cancellable_ids(orders.drop_last());
        if orders.last().cancellable {
            front.push(orders.last().order_id)
        } else {
            front
        }
    }
}

/// On a stop loss every cancellable order is cancelled.
pub fn plan_stop_loss(orders: &Vec<WorkingOrder>) -> (r: Vec<u64>)
    ensures
        r@ == cancellable_ids(orders@),
{
    let mut r: Vec<u64> = Vec::new();
    let mut i: usize = 0;
    assert(orders@.take(0) =~= Seq::empty());
    while i < orders.len()
        invariant
            i <= orders@.len(),
            r@ == cancellable_ids(orders@.take(i as int)),
        decreases orders@.len() - i,
    {
        assert(orders@.take(i as int + 1).drop_last() =~= orders@.take(i as int));
        if orders[i].cancellable {
            r.push(orders[i].order_id);
        }
        i += 1;
    }
    assert(orders@.take(i as int) =~= orders@);
    r
}

proof fn lemma_cancelled(
    orders: Seq<WorkingOrder>,
    bids: Set<u64>,
    asks: Set<u64>,
    k: int,
)
    requires
        0 <= k < cancelled_ids(orders, bids, asks).len(),
    ensures
        exists|i: int|
            0 <= i < orders.len() && is_cancelled(#[trigger] orders[i], bids, asks)
                && orders[i].order_id == cancelled_ids(orders, bids, asks)[k],
    decreases orders.len(),
{
    let front = cancelled_ids(orders.drop_last(), bids, asks);
    if k < front.len() {
        lemma_cancelled(orders.drop_last(), bids, asks, k);
        let i = choose|i: int|
            0 <= i < orders.drop_last().len() && is_cancelled(
                #[trigger] orders.drop_last()[i],
                bids,
                asks,
            ) && orders.drop_last()[i].order_id == front[k];
        assert(is_cancelled(orders[i], bids, asks));
    } else {
        assert(is_cancelled(orders[orders.len() - 1], bids, asks));
    }
}

/// An order with this identifier was cancellable, had lived long enough and
/// stood in its side's grid no longer.
pub open spec fn is_justified(
    orders: Seq<WorkingOrder>,
    bids: Set<u64>,
    asks: Set<u64>,
    id: u64,
) -> bool {
    exists|i: int|
        0 <= i < orders.len() && is_cancelled(#[trigger] orders[i], bids, asks)
            && orders[i].order_id == id
}

/// Every order that is cancelled was cancellable, had lived long enough and
/// stood in its side's grid no longer; and what a stop loss cancels holds all
/// that an ordinary update would cancel.
pub proof fn law_cancels_are_justified(orders: Seq<WorkingOrder>, bids: Set<u64>, asks: Set<u64>)
    ensures
        forall|k: int|
            0 <= k < cancelled_ids(orders, bids, asks).len() ==> is_justified(
                orders,
                bids,
                asks,
                #[trigger] cancelled_ids(orders, bids, asks)[k],
            ),
        forall|k: int|
            0 <= k < cancelled_ids(orders, bids, asks).len() ==> cancellable_ids(orders).contains(
                #[trigger] cancelled_ids(orders, bids, asks)[k],
            ),
{
    let ids = cancelled_ids(orders, bids, asks);
    assert forall|k: int| 0 <= k < ids.len() implies is_justified(
        orders,
        bids,
        asks,
        #[trigger] ids[k],
    ) && cancellable_ids(orders).contains(ids[k]) by {
        lemma_cancelled(orders, bids, asks, k);
        let i = choose|i: int|
            0 <= i < orders.len() && is_cancelled(#[trigger] orders[i], bids, asks)
                && orders[i].order_id == ids[k];
        lemma_cancellable(orders, i);
    }
}

proof fn lemma_cancellable(orders: Seq<WorkingOrder>, i: int)
    requires
        0 <= i < orders.len(),
        orders[i].cancellable,
    ensures
        cancellable_ids(orders).contains(orders[i].order_id),
    decreases orders.len(),
{
    let front = cancellable_ids(orders.drop_last());
    let all = cancellable_ids(orders);
    if i < orders.len() - 1 {
        lemma_cancellable(orders.drop_last(), i);
        let k = choose|k: int| 0 <= k < front.len() && front[k] == orders[i].order_id;
        assert(all[k] == orders[i].order_id);
    } else {
        assert(all[all.len() - 1] == orders[i].order_id);
    }
}

proof fn lemma_missing<F>(grid: Seq<(u64, F)>, existing: Seq<u64>, k: int)
    requires
        0 <= k < missing(grid, existing).len(),
    ensures
        exists|i: int| 0 <= i < grid.len() && #[trigger] grid[i] == missing(grid, existing)[k],
        !existing.contains(missing(grid, existing)[k].0),
    decreases grid.len(),
{
    let front = missing(grid.drop_last(), existing);
    if k < front.len() {
        lemma_missing(grid.drop_last(), existing, k);
        let i = choose|i: int|
            0 <= i < grid.drop_last().len() && #[trigger] grid.drop_last()[i] == front[k];
        assert(grid[i] == front[k]);
    } else {
        assert(grid[grid.len() - 1] == missing(grid, existing)[k]);
    }
}

/// No order is submitted that exists already, and only orders of the grid are.
pub proof fn law_no_order_is_doubled<F>(grid: Seq<(u64, F)>, existing: Seq<u64>)
    ensures
        forall|k: int|
            0 <= k < missing(grid, existing).len() ==> !existing.contains(
                (#[trigger] missing(grid, existing)[k]).0,
            ),
        forall|k: int|
            0 <= k < missing(grid, existing).len() ==> grid.contains(
                #[trigger] missing(grid, existing)[k],
            ),
{
    assert forall|k: int| 0 <= k < missing(grid, existing).len() implies !existing.contains(
        (#[trigger] missing(grid, existing)[k]).0,
    ) by {
        lemma_missing(grid, existing, k);
    }
    assert forall|k: int| 0 <= k < missing(grid, existing).len() implies grid.contains(
        #[trigger] missing(grid, existing)[k],
    ) by {
        lemma_missing(grid, existing, k);
    }
}

} // verus!
