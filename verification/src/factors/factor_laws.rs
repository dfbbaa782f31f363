//! Which quantities count, what a window's sum stands for, and when returns
//! are sampled.

use vstd::prelude::*;

use crate::factors::obi;
use crate::factors::time_window;
use crate::factors::time_window::WindowModel;
use crate::factors::volatility;
use crate::factors::volatility::{Sample, SamplerModel};
use crate::numbers;

verus! {

/// What `pick` makes of two numbers is what it gives for them.
pub proof fn law_combined_is_what_is_given<F, G: Fn(F, F) -> F>(pick: G, a: F, b: F, r: F)
    requires
        numbers::combines(pick),
        call_ensures(pick, (a, b), r),
    ensures
        numbers::combined(pick, a, b) == r,
{
    assert(call_ensures(pick, (a, b), numbers::combined(pick, a, b)));
}

/// A run of numbers is combined one by one from the front, none left out.
pub proof fn law_folded_one_by_one<F, G: Fn(F, F) -> F>(
    pick: G,
    start: F,
    values: Seq<F>,
    value: F,
)
    ensures
        numbers::folded(pick, start, Seq::empty()) == start,
        numbers::folded(pick, start, values.push(value)) == numbers::combined(
            pick,
            numbers::folded(pick, start, values),
            value,
        ),
{
    assert(values.push(value).drop_last() =~= values);
}

/// The larger and the smaller of two ticks.
pub proof fn law_bounds_of_ticks(a: i64, b: i64)
    ensures
        obi::max_tick(a, b) >= a && obi::max_tick(a, b) >= b,
        obi::max_tick(a, b) == a || obi::max_tick(a, b) == b,
        obi::min_tick(a, b) <= a && obi::min_tick(a, b) <= b,
        obi::min_tick(a, b) == a || obi::min_tick(a, b) == b,
{
}

/// Of a depth array exactly the ticks from `from` up to, but without, `upto`
/// count, each with its own quantity and in order, as far as the array goes.
pub proof fn law_every_tick_between_counts<F>(
    depth: Seq<F>,
    lb: int,
    from: int,
    upto: int,
    tick: int,
)
    requires
        lb <= from,
    ensures
        ({
            let part = obi::depth_between(depth, lb, from, upto);
            &&& (0 <= tick - from < part.len()) == (from <= tick < upto && tick - lb
                < depth.len())
            &&& 0 <= tick - from < part.len() ==> part[tick - from] == depth[tick - lb]
        }),
{
}

/// The quantity at a tick is the one that is given for it.
pub proof fn law_quantity_is_what_is_given<F, Q: Fn(i64) -> F>(quantity: Q, tick: i64, r: F)
    requires
        obi::answers(quantity),
        call_ensures(quantity, (tick,), r),
    ensures
        obi::quantity_at(quantity, tick) == r,
{
    assert(call_ensures(quantity, (tick,), obi::quantity_at(quantity, tick)));
}

/// Quantities are taken at each of `count` ticks in a row, upwards or
/// downwards, and at no other.
pub proof fn law_quantities_in_a_row<F, Q: Fn(i64) -> F>(quantity: Q, from: int, count: int)
    requires
        count >= 0,
    ensures
        obi::quantities(quantity, from, count, true).len() == count,
        obi::quantities(quantity, from, count, false).len() == count,
        forall|i: int|
            0 <= i < count ==> #[trigger] obi::quantities(quantity, from, count, true)[i]
                == obi::quantity_at(quantity, (from + i) as i64),
        forall|i: int|
            0 <= i < count ==> #[trigger] obi::quantities(quantity, from, count, false)[i]
                == obi::quantity_at(quantity, (from - i) as i64),
        forall|none: int, upwards: bool|
            none <= 0 ==> #[trigger] obi::quantities(quantity, from, none, upwards).len() == 0,
{
}

/// The values of the entries of a window.
pub open spec fn values_of<F>(entries: Seq<(i64, F)>) -> Seq<F> {
    entries.map_values(|e: (i64, F)| e.1)
}

/// Sums do not depend on the order in which values are added, and taking a
/// value off undoes adding it.
pub open spec fn adds_up<F, A: Fn(F, F) -> F, M: Fn(F, F) -> F>(plus: A, minus: M) -> bool {
    &&& forall|s: F, a: F, b: F| #[trigger]
        numbers::combined(plus, numbers::combined(plus, s, a), b) == numbers::combined(
            plus,
            numbers::combined(plus, s, b),
            a,
        )
    &&& forall|s: F, a: F| #[trigger]
        numbers::combined(minus, numbers::combined(plus, s, a), a) == s
}

proof fn lemma_first_added_last<F, A: Fn(F, F) -> F, M: Fn(F, F) -> F>(
    plus: A,
    minus: M,
    zero: F,
    values: Seq<F>,
)
    requires
        adds_up(plus, minus),
        values.len() > 0,
    ensures
        numbers::folded(plus, zero, values) == numbers::combined(
            plus,
            numbers::folded(plus, zero, values.drop_first()),
            values[0],
        ),
    decreases values.len(),
{
    let front = values.drop_last();
    if values.len() == 1 {
        assert(front =~= Seq::empty());
        assert(values.drop_first() =~= Seq::empty());
        assert(numbers::folded(plus, zero, front) == zero);
    } else {
        lemma_first_added_last(plus, minus, zero, front);
        let rest = front.drop_first();
        assert(values.drop_first().drop_last() =~= rest);
        let s = numbers::folded(plus, zero, rest);
        assert(numbers::folded(plus, zero, values) == numbers::combined(
            plus,
            numbers::combined(plus, s, values[0]),
            values.last(),
        ));
        assert(numbers::folded(plus, zero, values.drop_first()) == numbers::combined(
            plus,
            s,
            values.last(),
        ));
    }
}

proof fn lemma_expiring_keeps_the_sum<F, A: Fn(F, F) -> F, M: Fn(F, F) -> F>(
    w: WindowModel<F>,
    cutoff: int,
    zero: F,
    plus: A,
    minus: M,
)
    requires
        adds_up(plus, minus),
        w.sum == numbers::folded(plus, zero, values_of(w.entries)),
    ensures
        ({
            let after = time_window::expired(w, cutoff, minus);
            after.sum == numbers::folded(plus, zero, values_of(after.entries))
        }),
    decreases w.entries.len(),
{
    if w.entries.len() > 0 && w.entries[0].0 < cutoff {
        let next = WindowModel {
            entries: w.entries.drop_first(),
            sum: numbers::combined(minus, w.sum, w.entries[0].1),
        };
        lemma_first_added_last(plus, minus, zero, values_of(w.entries));
        assert(values_of(w.entries).drop_first() =~= values_of(next.entries));
        lemma_expiring_keeps_the_sum(next, cutoff, zero, plus, minus);
    }
}

/// The running sum of a window is the sum of the values that it holds, after
/// every update.
pub proof fn law_sum_is_that_of_the_window<F, A: Fn(F, F) -> F, M: Fn(F, F) -> F>(
    w: WindowModel<F>,
    window_ns: i64,
    timestamp: i64,
    value: F,
    zero: F,
    plus: A,
    minus: M,
)
    requires
        adds_up(plus, minus),
        w.sum == numbers::folded(plus, zero, values_of(w.entries)),
    ensures
        ({
            let after = time_window::with_entry(w, window_ns, timestamp, value, plus, minus);
            after.sum == numbers::folded(plus, zero, values_of(after.entries))
        }),
{
    let all = w.entries.push((timestamp, value));
    assert(values_of(all) =~= values_of(w.entries).push(value));
    law_folded_one_by_one(plus, zero, values_of(w.entries), value);
    lemma_expiring_keeps_the_sum(
        WindowModel { entries: all, sum: numbers::combined(plus, w.sum, value) },
        timestamp - window_ns,
        zero,
        plus,
        minus,
    );
}

/// Entries leave a window from the front, as long as they are older than the
/// cutoff, each taken off the sum; the first that is not keeps all behind it.
pub proof fn law_entries_leave_from_the_front<F, M: Fn(F, F) -> F>(
    w: WindowModel<F>,
    cutoff: int,
    minus: M,
)
    ensures
        w.entries.len() > 0 && w.entries[0].0 < cutoff ==> time_window::expired(w, cutoff, minus)
            == time_window::expired(
            WindowModel {
                entries: w.entries.skip(1),
                sum: numbers::combined(minus, w.sum, w.entries[0].1),
            },
            cutoff,
            minus,
        ),
        w.entries.len() == 0 || w.entries[0].0 >= cutoff ==> time_window::expired(
            w,
            cutoff,
            minus,
        ) == w,
{
    if w.entries.len() > 0 {
        assert(w.entries.skip(1) =~= w.entries.drop_first());
    }
}

/// The first price only starts the sampling. After that a price is taken once
/// the interval has passed, with a return from the price before it where that
/// is above zero, which is counted; in between nothing changes.
pub proof fn law_when_a_return_is_sampled<F>(
    s: SamplerModel<F>,
    interval_ns: i64,
    timestamp: i64,
    price: F,
    positive: bool,
)
    ensures
        ({
            let (after, sample) = volatility::sampled(
                s,
                interval_ns,
                timestamp,
                price,
                positive,
            );
            if s.last_timestamp == 0 {
                &&& sample == Sample::<F>::First
                &&& after.last_price == price
                &&& after.last_timestamp == timestamp
                &&& after.sample_count == s.sample_count
            } else if timestamp >= s.last_timestamp + interval_ns {
                &&& sample == (if positive {
                    Sample::ReturnFrom(s.last_price)
                } else {
                    Sample::NoReturn
                })
                &&& after.last_price == price
                &&& after.last_timestamp == timestamp
                &&& positive ==> after.sample_count == s.sample_count + 1
                &&& !positive ==> after.sample_count == s.sample_count
            } else {
                &&& sample == Sample::<F>::Waiting
                &&& after == s
            }
        }),
{
}

} // verus!
