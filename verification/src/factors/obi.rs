//! Order book imbalance: the quantities on each side of the book that count.

use vstd::prelude::*;

use crate::numbers;

verus! {

/// The larger of two ticks.
pub open spec fn max_tick(a: i64, b: i64) -> i64 {
    if a >= b {
        a
    } else {
        b
    }
}

/// The smaller of two ticks.
pub open spec fn min_tick(a: i64, b: i64) -> i64 {
    if a <= b {
        a
    } else {
        b
    }
}

/// The part of a depth array from tick `from` up to tick `upto` (exclusive),
/// where index 0 is tick `lb`.
pub open spec fn depth_between<F>(depth: Seq<F>, lb: int, from: int, upto: int) -> Seq<F> {
    let end = if upto - lb < depth.len() {
        upto - lb
    } else {
        depth.len() as int
    };
    if 0 <= from - lb < end {
        depth.subrange(from - lb, end)
    } else {
        Seq::empty()
    }
}

/// `quantity` may be called on every tick, and its answer depends on the tick alone.
pub open spec fn answers<F, Q: Fn(i64) -> F>(quantity: Q) -> bool {
    &&& forall|tick: i64| #[trigger] call_requires(quantity, (tick,))
    &&& forall|tick: i64, a: F, b: F| #[trigger]
        call_ensures(quantity, (tick,), a) && #[trigger] call_ensures(quantity, (tick,), b) ==> a
            == b
}

/// The quantity at a tick.
pub open spec fn quantity_at<F, Q: Fn(i64) -> F>(quantity: Q, tick: i64) -> F {
    choose|r: F| call_ensures(quantity, (tick,), r)
}

/// The quantities at `count` ticks from `from` on, upwards or downwards.
pub open spec fn quantities<F, Q: Fn(i64) -> F>(
    quantity: Q,
    from: int,
    count: int,
    upwards: bool,
) -> Seq<F> {
    Seq::new(
        if count > 0 {
            count as nat
        } else {
            0
        },
        |i: int|
            quantity_at(
                quantity,
                (if upwards {
                    from + i
                } else {
                    from - i
                }) as i64,
            ),
    )
}

/// Region of interest of an imbalance, in ticks.
#[derive(Debug, Clone, Copy)]
pub struct Region {
    /// Lowest tick.
    pub roi_lb_tick: i64,
    /// Highest tick.
    pub roi_ub_tick: i64,
}

impl Region {
    /// Sums the ask quantities from the best ask up to `depth_tick`
    /// (exclusive), lowest price first, within the region.
    pub fn sum_asks<F: Copy, A: Fn(F, F) -> F>(
        &self,
        ask_depth: &[F],
        best_ask_tick: i64,
        depth_tick: i64,
        zero: F,
        plus: &A,
    ) -> (r: F)
        requires
            numbers::combines(*plus),
            min_tick(depth_tick, self.roi_ub_tick) - self.roi_lb_tick <= i64::MAX,
        ensures
            r == numbers::folded(
                *plus,
                zero,
                depth_between(
                    ask_depth@,
                    self.roi_lb_tick as int,
                    max_tick(best_ask_tick, self.roi_lb_tick) as int,
                    min_tick(depth_tick, self.roi_ub_tick) as int,
                ),
            ),
    {
        let from_tick: i64 = if best_ask_tick >= self.roi_lb_tick {
            best_ask_tick
        } else {
            self.roi_lb_tick
        };
        let upto_tick: i64 = if depth_tick <= self.roi_ub_tick {
            depth_tick
        } else {
            self.roi_ub_tick
        };
        let ghost lb = self.roi_lb_tick as int;
        let ghost part = depth_between(ask_depth@, lb, from_tick as int, upto_tick as int);
        let mut sum = zero;
        let mut price_tick: i64 = from_tick;
        assert(part.take(0) =~= Seq::empty());
        let ghost mut done: int = 0;
        while price_tick < upto_tick
            invariant
                numbers::combines(*plus),
                lb == self.roi_lb_tick,
                lb <= from_tick <= price_tick,
                from_tick < upto_tick ==> price_tick <= upto_tick,
                upto_tick - self.roi_lb_tick <= i64::MAX,
                part == depth_between(ask_depth@, lb, from_tick as int, upto_tick as int),
                0 <= done <= part.len(),
                done == (if price_tick - from_tick <= part.len() {
                    price_tick - from_tick
                } else {
                    part.len() as int
                }),
                sum == numbers::folded(*plus, zero, part.take(done)),
            decreases upto_tick - price_tick,
        {
            let idx: u64 = (price_tick - self.roi_lb_tick) as u64;
            if idx < ask_depth.len() as u64 {
                proof {
                    assert(part[done] == ask_depth@[idx as int]);
                    assert(part.take(done + 1).drop_last() =~= part.take(done));
                    done = done + 1;
                }
                sum = numbers::combine(plus, sum, ask_depth[idx as usize]);
            }
            price_tick += 1;
        }
        assert(part.take(done) =~= part);
        sum
    }

    /// Sums the bid quantities from the best bid down to `depth_tick`
    /// (inclusive), highest price first, within the region. A best bid that
    /// stands at `depth_tick` itself counts.
    pub fn sum_bids<F: Copy, A: Fn(F, F) -> F>(
        &self,
        bid_depth: &[F],
        best_bid_tick: i64,
        depth_tick: i64,
        zero: F,
        plus: &A,
    ) -> (r: F)
        requires
            numbers::combines(*plus),
            min_tick(best_bid_tick, self.roi_ub_tick) - self.roi_lb_tick <= i64::MAX,
        ensures
            r == numbers::folded(
                *plus,
                zero,
                depth_between(
                    bid_depth@,
                    self.roi_lb_tick as int,
                    max_tick(depth_tick, self.roi_lb_tick) as int,
                    min_tick(best_bid_tick, self.roi_ub_tick) + 1,
                ).reverse(),
            ),
    {
        let from_tick: i64 = if best_bid_tick <= self.roi_ub_tick {
            best_bid_tick
        } else {
            self.roi_ub_tick
        };
        let upto_tick: i64 = if depth_tick >= self.roi_lb_tick {
            depth_tick
        } else {
            self.roi_lb_tick
        };
        let ghost lb = self.roi_lb_tick as int;
        let ghost part = depth_between(bid_depth@, lb, upto_tick as int, from_tick + 1).reverse();
        let mut sum = zero;
        let mut price_tick: i128 = from_tick as i128;
        assert(part.take(0) =~= Seq::empty());
        let ghost mut done: int = 0;
        let ghost over: int = if from_tick + 1 - upto_tick > part.len() {
            from_tick + 1 - upto_tick - part.len()
        } else {
            0
        };
        while price_tick >= upto_tick as i128
            invariant
                numbers::combines(*plus),
                lb == self.roi_lb_tick,
                lb <= upto_tick,
                price_tick <= from_tick,
                from_tick >= upto_tick ==> price_tick >= upto_tick - 1,
                from_tick < upto_tick ==> price_tick == from_tick,
                from_tick - self.roi_lb_tick <= i64::MAX,
                part == depth_between(bid_depth@, lb, upto_tick as int, from_tick + 1).reverse(),
                over == (if from_tick + 1 - upto_tick > part.len() {
                    from_tick + 1 - upto_tick - part.len()
                } else {
                    0
                }),
                0 <= done <= part.len(),
                done == (if from_tick - price_tick > over {
                    from_tick - price_tick - over
                } else {
                    0
                }),
                sum == numbers::folded(*plus, zero, part.take(done)),
            decreases price_tick + 1 - upto_tick,
        {
            let idx: u64 = (price_tick - self.roi_lb_tick as i128) as u64;
            if idx < bid_depth.len() as u64 {
                proof {
                    assert(part[done] == bid_depth@[idx as int]);
                    assert(part.take(done + 1).drop_last() =~= part.take(done));
                    done = done + 1;
                }
                sum = numbers::combine(plus, sum, bid_depth[idx as usize]);
            }
            price_tick -= 1;
        }
        assert(part.take(done) =~= part);
        sum
    }

    /// Sums the ask quantities from the best ask up to `depth_tick`
    /// (exclusive), lowest price first, within the region.
    pub fn sum_asks_at<F: Copy, A: Fn(F, F) -> F, Q: Fn(i64) -> F>(
        &self,
        ask_qty_at_tick: &Q,
        best_ask_tick: i64,
        depth_tick: i64,
        zero: F,
        plus: &A,
    ) -> (r: F)
        requires
            numbers::combines(*plus),
            answers(*ask_qty_at_tick),
        ensures
            r == numbers::folded(
                *plus,
                zero,
                quantities(
                    *ask_qty_at_tick,
                    max_tick(best_ask_tick, self.roi_lb_tick) as int,
                    min_tick(depth_tick, self.roi_ub_tick) - max_tick(
                        best_ask_tick,
                        self.roi_lb_tick,
                    ),
                    true,
                ),
            ),
    {
        let from_tick: i64 = if best_ask_tick >= self.roi_lb_tick {
            best_ask_tick
        } else {
            self.roi_lb_tick
        };
        let upto_tick: i64 = if depth_tick <= self.roi_ub_tick {
            depth_tick
        } else {
            self.roi_ub_tick
        };
        let ghost all = quantities(*ask_qty_at_tick, from_tick as int, upto_tick - from_tick, true);
        let mut sum = zero;
        let mut price_tick: i64 = from_tick;
        assert(all.take(0) =~= Seq::empty());
        while price_tick < upto_tick
            invariant
                numbers::combines(*plus),
                answers(*ask_qty_at_tick),
                from_tick <= price_tick,
                from_tick < upto_tick ==> price_tick <= upto_tick,
                all == quantities(
                    *ask_qty_at_tick,
                    from_tick as int,
                    upto_tick - from_tick,
                    true,
                ),
                price_tick == from_tick || price_tick - from_tick <= all.len(),
                sum == numbers::folded(*plus, zero, all.take(price_tick - from_tick)),
            decreases upto_tick - price_tick,
        {
            let qty = ask_qty_at_tick(price_tick);
            proof {
                let done = price_tick - from_tick;
                assert(call_ensures(
                    *ask_qty_at_tick,
                    (price_tick,),
                    quantity_at(*ask_qty_at_tick, price_tick),
                ));
                assert(all[done] == qty);
                assert(all.take(done + 1).drop_last() =~= all.take(done));
            }
            sum = numbers::combine(plus, sum, qty);
            price_tick += 1;
        }
        assert(all.take(price_tick - from_tick) =~= all);
        sum
    }

    /// Sums the bid quantities from the best bid down to `depth_tick`
    /// (inclusive), highest price first, within the region. A best bid that
    /// stands at `depth_tick` itself counts.
    pub fn sum_bids_at<F: Copy, A: Fn(F, F) -> F, Q: Fn(i64) -> F>(
        &self,
        bid_qty_at_tick: &Q,
        best_bid_tick: i64,
        depth_tick: i64,
        zero: F,
        plus: &A,
    ) -> (r: F)
        requires
            numbers::combines(*plus),
            answers(*bid_qty_at_tick),
        ensures
            r == numbers::folded(
                *plus,
                zero,
                quantities(
                    *bid_qty_at_tick,
                    min_tick(best_bid_tick, self.roi_ub_tick) as int,
                    min_tick(best_bid_tick, self.roi_ub_tick) - max_tick(
                        depth_tick,
                        self.roi_lb_tick,
                    ) + 1,
                    false,
                ),
            ),
    {
        let from_tick: i64 = if best_bid_tick <= self.roi_ub_tick {
            best_bid_tick
        } else {
            self.roi_ub_tick
        };
        let upto_tick: i64 = if depth_tick >= self.roi_lb_tick {
            depth_tick
        } else {
            self.roi_lb_tick
        };
        let ghost all = quantities(
            *bid_qty_at_tick,
            from_tick as int,
            from_tick - upto_tick + 1,
            false,
        );
        let mut sum = zero;
        let mut price_tick: i128 = from_tick as i128;
        assert(all.take(0) =~= Seq::empty());
        while price_tick >= upto_tick as i128
            invariant
                numbers::combines(*plus),
                answers(*bid_qty_at_tick),
                price_tick <= from_tick,
                from_tick >= upto_tick ==> price_tick >= upto_tick - 1,
                from_tick < upto_tick ==> price_tick == from_tick,
                all == quantities(
                    *bid_qty_at_tick,
                    from_tick as int,
                    from_tick - upto_tick + 1,
                    false,
                ),
                price_tick == from_tick || from_tick - price_tick <= all.len(),
                sum == numbers::folded(*plus, zero, all.take(from_tick - price_tick)),
            decreases price_tick + 1 - upto_tick,
        {
            let tick: i64 = price_tick as i64;
            let qty = bid_qty_at_tick(tick);
            proof {
                let done = from_tick - price_tick;
                assert(call_ensures(
                    *bid_qty_at_tick,
                    (tick,),
                    quantity_at(*bid_qty_at_tick, tick),
                ));
                assert(all[done] == qty);
                assert(all.take(done + 1).drop_last() =~= all.take(done));
            }
            sum = numbers::combine(plus, sum, qty);
            price_tick -= 1;
        }
        assert(all.take(from_tick - price_tick) =~= all);
        sum
    }
}

} // verus!
