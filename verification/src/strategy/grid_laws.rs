//! What a grid of orders guarantees.

use vstd::prelude::*;

use crate::recorder::convert::HftSide;
use crate::strategy::grid;
use crate::strategy::grid::WorkingOrder;

verus! {

/// A grid has as many levels as asked for, beginning at the first price, each
/// one a step away from the one before it and named by its own price; a closed
/// side has none.
pub proof fn law_levels_follow_each_other<F, N: Fn(F) -> F, T: Fn(F) -> u64>(
    open: bool,
    first: F,
    num: nat,
    next: N,
    tick_of: T,
)
    ensures
        ({
            let levels = grid::levels_from(open, first, num, next, tick_of);
            &&& levels.len() == (if open {
                num
            } else {
                0
            })
            &&& levels.len() > 0 ==> levels[0].1 == first
            &&& forall|i: int|
                0 <= i < levels.len() ==> (#[trigger] levels[i]).0 == grid::price_id(
                    tick_of,
                    levels[i].1,
                )
            &&& forall|i: int, j: int|
                0 <= i < levels.len() && j == i + 1 && j < levels.len() ==> (
                #[trigger] levels[j]).1 == grid::next_price(next, (#[trigger] levels[i]).1)
        }),
{
    let levels = grid::levels_from(open, first, num, next, tick_of);
    assert forall|i: int, j: int|
        0 <= i < levels.len() && j == i + 1 && j < levels.len() implies (#[trigger] levels[j]).1
        == grid::next_price(next, (#[trigger] levels[i]).1) by {
        assert((j as nat - 1) as nat == i as nat);
    }
}

/// An identifier is in the grid where a level has it, and then with the price
/// of the last level that does.
pub proof fn law_last_level_of_a_name_counts<F>(levels: Seq<(u64, F)>)
    ensures
        forall|id: u64|
            #[trigger] grid::grid_map(levels).contains_key(id) == (exists|i: int|
                0 <= i < levels.len() && (#[trigger] levels[i]).0 == id),
        forall|i: int|
            0 <= i < levels.len() && (forall|j: int|
                i < j < levels.len() ==> (#[trigger] levels[j]).0 != levels[i].0)
                ==> grid::grid_map(levels)[(#[trigger] levels[i]).0] == levels[i].1,
    decreases levels.len(),
{
    let all = grid::grid_map(levels);
    if levels.len() > 0 {
        let front = levels.drop_last();
        let n = levels.len() - 1;
        law_last_level_of_a_name_counts(front);
        assert forall|id: u64|
            #[trigger] all.contains_key(id) == (exists|i: int|
                0 <= i < levels.len() && (#[trigger] levels[i]).0 == id) by {
            if all.contains_key(id) {
                if id == levels[n].0 {
                } else {
                    assert(grid::grid_map(front).contains_key(id));
                    let i = choose|i: int| 0 <= i < front.len() && (#[trigger] front[i]).0 == id;
                    assert(levels[i].0 == id);
                }
            }
            if exists|i: int| 0 <= i < levels.len() && (#[trigger] levels[i]).0 == id {
                let i = choose|i: int| 0 <= i < levels.len() && (#[trigger] levels[i]).0 == id;
                if i < n {
                    assert(front[i].0 == id);
                    assert(grid::grid_map(front).contains_key(id));
                }
            }
        }
        assert forall|i: int|
            0 <= i < levels.len() && (forall|j: int|
                i < j < levels.len() ==> (#[trigger] levels[j]).0 != levels[i].0) implies all[(
        #[trigger] levels[i]).0] == levels[i].1 by {
            if i < n {
                assert(levels[n].0 != levels[i].0);
                assert(front[i] == levels[i]);
                assert forall|j: int| i < j < front.len() implies (#[trigger] front[j]).0
                    != front[i].0 by {
                    assert(levels[j].0 != levels[i].0);
                }
            }
        }
    }
}

/// The identifiers of a grid are those of its orders.
pub proof fn law_grid_ids<F>(orders: Seq<(u64, F)>, id: u64)
    ensures
        grid::grid_ids(orders).contains(id) == exists|i: int|
            0 <= i < orders.len() && (#[trigger] orders[i]).0 == id,
{
}

/// An order is cancelled exactly where it can be, has lived long enough, and
/// stands on a side of the book whose grid has no order with its identifier.
pub proof fn law_when_an_order_is_cancelled(o: WorkingOrder, bids: Set<u64>, asks: Set<u64>)
    ensures
        grid::is_cancelled(o, bids, asks) <==> o.cancellable && o.expired && ((o.side
            == HftSide::Buy && !bids.contains(o.order_id)) || (o.side == HftSide::Sell
            && !asks.contains(o.order_id))),
{
}

/// The cancelled orders are all those that are to be cancelled, each once, in
/// the order of the working orders.
pub proof fn law_all_that_is_due_is_cancelled(
    orders: Seq<WorkingOrder>,
    bids: Set<u64>,
    asks: Set<u64>,
)
    ensures
        grid::cancelled_ids(orders, bids, asks) == orders.filter(
            |o: WorkingOrder|
                o.cancellable && o.expired && ((o.side == HftSide::Buy && !bids.contains(
                    o.order_id,
                )) || (o.side == HftSide::Sell && !asks.contains(o.order_id))),
        ).map_values(|o: WorkingOrder| o.order_id),
        forall|i: int|
            0 <= i < orders.len() && orders[i].cancellable && orders[i].expired && ((
            orders[i].side == HftSide::Buy && !bids.contains(orders[i].order_id)) || (
            orders[i].side == HftSide::Sell && !asks.contains(orders[i].order_id)))
                ==> grid::cancelled_ids(orders, bids, asks).contains(
                (#[trigger] orders[i]).order_id,
            ),
    decreases orders.len(),
{
    reveal(Seq::filter);
    let due = |o: WorkingOrder|
        o.cancellable && o.expired && ((o.side == HftSide::Buy && !bids.contains(o.order_id)) || (
        o.side == HftSide::Sell && !asks.contains(o.order_id)));
    let ids = grid::cancelled_ids(orders, bids, asks);
    if orders.len() > 0 {
        let front = orders.drop_last();
        law_all_that_is_due_is_cancelled(front, bids, asks);
        let before = grid::cancelled_ids(front, bids, asks);
        assert(ids =~= orders.filter(due).map_values(|o: WorkingOrder| o.order_id));
        assert forall|i: int| 0 <= i < orders.len() && due(orders[i]) implies ids.contains(
            (#[trigger] orders[i]).order_id,
        ) by {
            if i < front.len() {
                assert(front[i] == orders[i]);
                let k = choose|k: int| 0 <= k < before.len() && before[k] == orders[i].order_id;
                assert(ids[k] == orders[i].order_id);
            } else {
                assert(ids[ids.len() - 1] == orders[i].order_id);
            }
        }
    } else {
        assert(ids =~= orders.filter(due).map_values(|o: WorkingOrder| o.order_id));
    }
}

/// A stop loss cancels all orders that can be cancelled, each once, in turn.
pub proof fn law_stop_loss_cancels_everything(orders: Seq<WorkingOrder>)
    ensures
        grid::cancellable_ids(orders) == orders.filter(
            |o: WorkingOrder| o.cancellable,
        ).map_values(|o: WorkingOrder| o.order_id),
        forall|i: int|
            0 <= i < orders.len() && orders[i].cancellable ==> grid::cancellable_ids(
                orders,
            ).contains((#[trigger] orders[i]).order_id),
    decreases orders.len(),
{
    reveal(Seq::filter);
    let can = |o: WorkingOrder| o.cancellable;
    let ids = grid::cancellable_ids(orders);
    if orders.len() > 0 {
        let front = orders.drop_last();
        law_stop_loss_cancels_everything(front);
        let before = grid::cancellable_ids(front);
        assert(ids =~= orders.filter(can).map_values(|o: WorkingOrder| o.order_id));
        assert forall|i: int| 0 <= i < orders.len() && orders[i].cancellable implies ids.contains(
            (#[trigger] orders[i]).order_id,
        ) by {
            if i < front.len() {
                assert(front[i] == orders[i]);
                let k = choose|k: int| 0 <= k < before.len() && before[k] == orders[i].order_id;
                assert(ids[k] == orders[i].order_id);
            } else {
                assert(ids[ids.len() - 1] == orders[i].order_id);
            }
        }
    } else {
        assert(ids =~= orders.filter(can).map_values(|o: WorkingOrder| o.order_id));
    }
}

/// The order can be cancelled and stands on this side.
pub open spec fn works_on(o: WorkingOrder, side: HftSide) -> bool {
    o.cancellable && o.side == side
}

/// An order counts as held on its side where it works there and is kept, and
/// against it where it is cancelled; a side never holds less than nothing.
pub proof fn law_held_orders_are_counted(
    orders: Seq<WorkingOrder>,
    side: HftSide,
    bids: Set<u64>,
    asks: Set<u64>,
)
    ensures
        ({
            let kept = orders.filter(
                |o: WorkingOrder| works_on(o, side) && !grid::is_cancelled(o, bids, asks),
            ).len() as int;
            let gone = orders.filter(
                |o: WorkingOrder| works_on(o, side) && grid::is_cancelled(o, bids, asks),
            ).len() as int;
            &&& grid::balance(orders, side, bids, asks) == kept - gone
            &&& grid::holding(orders, side, bids, asks) == (if kept > gone {
                kept - gone
            } else {
                0
            })
        }),
    decreases orders.len(),
{
    reveal(Seq::filter);
    if orders.len() > 0 {
        law_held_orders_are_counted(orders.drop_last(), side, bids, asks);
    }
}

/// Every order of a grid that does not exist yet is submitted, exactly those,
/// each once, in the order of the grid.
pub proof fn law_every_missing_order_is_submitted<F>(orders: Seq<(u64, F)>, existing: Seq<u64>)
    ensures
        grid::missing(orders, existing) == orders.filter(
            |o: (u64, F)| !existing.contains(o.0),
        ),
        forall|i: int|
            0 <= i < orders.len() && !existing.contains(orders[i].0) ==> grid::missing(
                orders,
                existing,
            ).contains(#[trigger] orders[i]),
    decreases orders.len(),
{
    reveal(Seq::filter);
    let r = grid::missing(orders, existing);
    if orders.len() > 0 {
        let front = orders.drop_last();
        law_every_missing_order_is_submitted(front, existing);
        let before = grid::missing(front, existing);
        assert forall|i: int|
            0 <= i < orders.len() && !existing.contains(orders[i].0) implies r.contains(
            #[trigger] orders[i],
        ) by {
            if i < front.len() {
                assert(front[i] == orders[i]);
                let k = choose|k: int| 0 <= k < before.len() && before[k] == orders[i];
                assert(r[k] == orders[i]);
            } else {
                assert(r[r.len() - 1] == orders[i]);
            }
        }
    }
}

/// The price of the next level and the identifier of a price are those that
/// are given for it.
pub proof fn law_steps_are_those_given<F, N: Fn(F) -> F, T: Fn(F) -> u64>(
    next: N,
    tick_of: T,
    px: F,
    r: F,
    id: u64,
)
    requires
        grid::steps(next, tick_of),
        call_ensures(next, (px,), r),
        call_ensures(tick_of, (px,), id),
    ensures
        grid::next_price(next, px) == r,
        grid::price_id(tick_of, px) == id,
{
    assert(call_ensures(next, (px,), grid::next_price(next, px)));
    assert(call_ensures(tick_of, (px,), grid::price_id(tick_of, px)));
}

} // verus!
