//! What the corrected event order guarantees.

use vstd::prelude::*;

use crate::data::sort;
use crate::data::validation;
use crate::data::validation::Pick;
use crate::types;
use crate::types::{Event, EXCH_EVENT, LOCAL_EVENT};

verus! {

/// The two index lists are the stable orders of `data` by exchange and by
/// local timestamp.
pub open spec fn stable_orders<F>(
    data: Seq<Event<F>>,
    by_exch: Seq<usize>,
    by_local: Seq<usize>,
) -> bool {
    &&& sort::is_stable_order(validation::exch_keys(data), by_exch)
    &&& sort::is_stable_order(validation::local_keys(data), by_local)
}

/// The events picked for the exchange order, in turn.
pub open spec fn exch_picks(picks: Seq<Pick>) -> Seq<int>
    decreases picks.len(),
{
    if picks.len() == 0 {
        Seq::empty()
    } else if picks.first().exch {
        seq![picks.first().index] + exch_picks(picks.drop_first())
    } else {
        exch_picks(picks.drop_first())
    }
}

/// The events picked for the local order, in turn.
pub open spec fn local_picks(picks: Seq<Pick>) -> Seq<int>
    decreases picks.len(),
{
    if picks.len() == 0 {
        Seq::empty()
    } else if picks.first().local {
        seq![picks.first().index] + local_picks(picks.drop_first())
    } else {
        local_picks(picks.drop_first())
    }
}

/// Positions as integers.
pub open spec fn positions(order: Seq<usize>) -> Seq<int> {
    order.map_values(|k: usize| k as int)
}

/// An event already taken from the exchange order but not yet from the local
/// one waits behind a head with a later exchange timestamp.
spec fn exch_ahead<F>(
    data: Seq<Event<F>>,
    by_exch: Seq<usize>,
    by_local: Seq<usize>,
    a: int,
    b: int,
) -> bool {
    forall|i: int, j: int|
        0 <= i < a && b <= j < data.len() && #[trigger] by_exch[i] == #[trigger] by_local[j] ==> {
            ||| a == data.len()
            ||| data[by_local[b] as int].exch_ts > data[by_exch[i] as int].exch_ts
            ||| data[by_exch[a] as int].exch_ts > data[by_exch[i] as int].exch_ts
        }
}

/// An event already taken from the local order but not yet from the exchange
/// one waits behind a head that is later than it.
spec fn local_ahead<F>(
    data: Seq<Event<F>>,
    by_exch: Seq<usize>,
    by_local: Seq<usize>,
    a: int,
    b: int,
) -> bool {
    forall|i: int, j: int|
        a <= i < data.len() && 0 <= j < b && #[trigger] by_exch[i] == #[trigger] by_local[j] ==> {
            ||| data[by_exch[a] as int].exch_ts == data[by_exch[i] as int].exch_ts
                && data[by_exch[a] as int].local_ts > data[by_exch[i] as int].local_ts
            ||| b == data.len()
            ||| data[by_local[b] as int].exch_ts > data[by_exch[i] as int].exch_ts
            ||| data[by_local[b] as int].local_ts > data[by_exch[i] as int].local_ts
        }
}

spec fn on_course<F>(
    data: Seq<Event<F>>,
    by_exch: Seq<usize>,
    by_local: Seq<usize>,
    a: int,
    b: int,
) -> bool {
    &&& stable_orders(data, by_exch, by_local)
    &&& 0 <= a <= data.len()
    &&& 0 <= b <= data.len()
    &&& exch_ahead(data, by_exch, by_local, a, b)
    &&& local_ahead(data, by_exch, by_local, a, b)
}

proof fn lemma_orders<F>(data: Seq<Event<F>>, by_exch: Seq<usize>, by_local: Seq<usize>)
    requires
        stable_orders(data, by_exch, by_local),
    ensures
        by_exch.len() == data.len(),
        by_local.len() == data.len(),
        forall|i: int| 0 <= i < data.len() ==> (#[trigger] by_exch[i]) < data.len(),
        forall|i: int| 0 <= i < data.len() ==> (#[trigger] by_local[i]) < data.len(),
        forall|i: int, j: int|
            0 <= i < j < data.len() ==> data[#[trigger] by_exch[i] as int].exch_ts
                <= data[#[trigger] by_exch[j] as int].exch_ts,
        forall|i: int, j: int|
            0 <= i < j < data.len() ==> data[#[trigger] by_local[i] as int].local_ts
                <= data[#[trigger] by_local[j] as int].local_ts,
        forall|i: int, j: int|
            0 <= i < j < data.len() && data[#[trigger] by_exch[i] as int].exch_ts
                == data[#[trigger] by_exch[j] as int].exch_ts ==> by_exch[i] < by_exch[j],
        forall|i: int, j: int|
            0 <= i < j < data.len() && data[#[trigger] by_local[i] as int].local_ts
                == data[#[trigger] by_local[j] as int].local_ts ==> by_local[i] < by_local[j],
{
    let ek = validation::exch_keys(data);
    let lk = validation::local_keys(data);
    assert forall|i: int, j: int| 0 <= i < j < data.len() implies sort::comes_before(
        ek,
        #[trigger] by_exch[i],
        #[trigger] by_exch[j],
    ) by {}
    assert forall|i: int, j: int| 0 <= i < j < data.len() implies sort::comes_before(
        lk,
        #[trigger] by_local[i],
        #[trigger] by_local[j],
    ) by {}
}

/// Where both heads have the same timestamps, they are one and the same event.
proof fn lemma_equal_heads<F>(
    data: Seq<Event<F>>,
    by_exch: Seq<usize>,
    by_local: Seq<usize>,
    a: int,
    b: int,
)
    requires
        on_course(data, by_exch, by_local, a, b),
        a < data.len(),
        b < data.len(),
        data[by_exch[a] as int].exch_ts == data[by_local[b] as int].exch_ts,
        data[by_exch[a] as int].local_ts == data[by_local[b] as int].local_ts,
    ensures
        by_exch[a] == by_local[b],
{
    lemma_orders(data, by_exch, by_local);
    let p = by_exch[a];
    let q = by_local[b];
    if p != q {
        assert(by_exch.contains(q));
        assert(by_local.contains(p));
        let i = choose|i: int| 0 <= i < by_exch.len() && by_exch[i] == q;
        let j = choose|j: int| 0 <= j < by_local.len() && by_local[j] == p;
        if p < q {
            assert(j < b);
            assert(by_exch[a] == by_local[j]);
        } else {
            assert(i < a);
            assert(by_exch[i] == by_local[b]);
        }
    }
}

/// Each step of the merge keeps the course.
proof fn lemma_step<F>(
    data: Seq<Event<F>>,
    by_exch: Seq<usize>,
    by_local: Seq<usize>,
    a: int,
    b: int,
)
    requires
        on_course(data, by_exch, by_local, a, b),
        a < data.len() || b < data.len(),
    ensures
        ({
            let n = data.len();
            let e = data[by_exch[a] as int];
            let l = data[by_local[b] as int];
            if b == n {
                on_course(data, by_exch, by_local, a + 1, b)
            } else if a == n {
                on_course(data, by_exch, by_local, a, b + 1)
            } else if e.exch_ts == l.exch_ts && e.local_ts == l.local_ts {
                by_exch[a] == by_local[b] && on_course(data, by_exch, by_local, a + 1, b + 1)
            } else if e.exch_ts < l.exch_ts || (e.exch_ts == l.exch_ts && e.local_ts
                < l.local_ts) {
                on_course(data, by_exch, by_local, a + 1, b)
            } else {
                on_course(data, by_exch, by_local, a, b + 1)
            }
        }),
{
    lemma_orders(data, by_exch, by_local);
    let n = data.len();
    let e = data[by_exch[a] as int];
    let l = data[by_local[b] as int];
    if b == n {
    } else if a == n {
    } else if e.exch_ts == l.exch_ts && e.local_ts == l.local_ts {
        lemma_equal_heads(data, by_exch, by_local, a, b);
        assert(exch_ahead(data, by_exch, by_local, a + 1, b + 1));
        assert(local_ahead(data, by_exch, by_local, a + 1, b + 1));
    } else if e.exch_ts < l.exch_ts || (e.exch_ts == l.exch_ts && e.local_ts < l.local_ts) {
        assert(exch_ahead(data, by_exch, by_local, a + 1, b));
        assert(local_ahead(data, by_exch, by_local, a + 1, b));
    } else {
        assert(exch_ahead(data, by_exch, by_local, a, b + 1));
        assert(local_ahead(data, by_exch, by_local, a, b + 1));
    }
}

proof fn lemma_picks<F>(
    data: Seq<Event<F>>,
    by_exch: Seq<usize>,
    by_local: Seq<usize>,
    a: int,
    b: int,
)
    requires
        on_course(data, by_exch, by_local, a, b),
    ensures
        ({
            let n = data.len() as int;
            let picks = validation::merge_picks(data, by_exch, by_local, a, b);
            &&& exch_picks(picks) == positions(by_exch.subrange(a, n))
            &&& local_picks(picks) == positions(by_local.subrange(b, n))
            &&& picks.len() <= (n - a) + (n - b)
            &&& forall|i: int|
                0 <= i < picks.len() ==> 0 <= (#[trigger] picks[i]).index < n && (picks[i].exch
                    || picks[i].local)
            &&& forall|i: int|
                0 <= i < picks.len() && (#[trigger] picks[i]).exch ==> a < n
                    && data[by_exch[a] as int].exch_ts <= data[picks[i].index].exch_ts
            &&& forall|i: int|
                0 <= i < picks.len() && (#[trigger] picks[i]).local ==> b < n
                    && data[by_local[b] as int].local_ts <= data[picks[i].index].local_ts
            &&& forall|i: int, j: int|
                0 <= i < j < picks.len() && (#[trigger] picks[i]).exch && (
                #[trigger] picks[j]).exch ==> data[picks[i].index].exch_ts
                    <= data[picks[j].index].exch_ts
            &&& forall|i: int, j: int|
                0 <= i < j < picks.len() && (#[trigger] picks[i]).local && (
                #[trigger] picks[j]).local ==> data[picks[i].index].local_ts
                    <= data[picks[j].index].local_ts
        }),
    decreases 2 * data.len() - a - b,
{
    lemma_orders(data, by_exch, by_local);
    let n = data.len() as int;
    let picks = validation::merge_picks(data, by_exch, by_local, a, b);
    if a == n && b == n {
        assert(by_exch.subrange(a, n).len() == 0);
        assert(by_local.subrange(b, n).len() == 0);
        assert(exch_picks(picks) =~= positions(by_exch.subrange(a, n)));
        assert(local_picks(picks) =~= positions(by_local.subrange(b, n)));
    } else {
        lemma_step(data, by_exch, by_local, a, b);
        let head = picks[0];
        let a2 = if head.exch {
            a + 1
        } else {
            a
        };
        let b2 = if head.local {
            b + 1
        } else {
            b
        };
        let tail = validation::merge_picks(data, by_exch, by_local, a2, b2);
        assert(picks =~= seq![head] + tail);
        assert(picks.drop_first() =~= tail);
        lemma_picks(data, by_exch, by_local, a2, b2);
        assert forall|i: int| 1 <= i < picks.len() implies #[trigger] picks[i] == tail[i - 1] by {}
        if head.exch {
            assert(by_exch.subrange(a, n) =~= seq![by_exch[a]] + by_exch.subrange(a + 1, n));
            assert(positions(by_exch.subrange(a, n)) =~= seq![by_exch[a] as int] + positions(
                by_exch.subrange(a + 1, n),
            ));
        }
        if head.local {
            assert(by_local.subrange(b, n) =~= seq![by_local[b]] + by_local.subrange(b + 1, n));
            assert(positions(by_local.subrange(b, n)) =~= seq![by_local[b] as int] + positions(
                by_local.subrange(b + 1, n),
            ));
        }
    }
}

proof fn lemma_start<F>(data: Seq<Event<F>>, by_exch: Seq<usize>, by_local: Seq<usize>)
    requires
        stable_orders(data, by_exch, by_local),
    ensures
        on_course(data, by_exch, by_local, 0, 0),
{
}

/// The corrected order splits rows without losing or inventing any: the
/// picks for the exchange are all events by exchange timestamp, each once,
/// and the local picks are all events by local timestamp, each once.
pub proof fn law_each_event_once_in_both_orders<F>(
    data: Seq<Event<F>>,
    by_exch: Seq<usize>,
    by_local: Seq<usize>,
)
    requires
        stable_orders(data, by_exch, by_local),
    ensures
        ({
            let picks = validation::merge_picks(data, by_exch, by_local, 0, 0);
            &&& exch_picks(picks) == positions(by_exch)
            &&& local_picks(picks) == positions(by_local)
            &&& picks.len() <= 2 * data.len()
            &&& forall|i: int|
                0 <= i < picks.len() ==> 0 <= (#[trigger] picks[i]).index < data.len() && (
                picks[i].exch || picks[i].local)
        }),
{
    lemma_start(data, by_exch, by_local);
    lemma_picks(data, by_exch, by_local, 0, 0);
    assert(by_exch.subrange(0, data.len() as int) =~= by_exch);
    assert(by_local.subrange(0, data.len() as int) =~= by_local);
}

/// The flags of a picked event say which orders it was picked for, where the
/// event had neither flag before.
pub proof fn lemma_flags<F>(e: Event<F>, exch: bool, local: bool)
    requires
        !types::is_exch(e),
        !types::is_local(e),
    ensures
        types::is_exch(validation::flagged(e, exch, local)) == exch,
        types::is_local(validation::flagged(e, exch, local)) == local,
{
    let ev = e.ev;
    assert((ev | (EXCH_EVENT | LOCAL_EVENT)) & EXCH_EVENT == EXCH_EVENT) by (bit_vector);
    assert((ev | (EXCH_EVENT | LOCAL_EVENT)) & LOCAL_EVENT == LOCAL_EVENT) by (bit_vector);
    assert((ev | EXCH_EVENT) & EXCH_EVENT == EXCH_EVENT) by (bit_vector);
    assert((ev | LOCAL_EVENT) & LOCAL_EVENT == LOCAL_EVENT) by (bit_vector);
    assert((ev | EXCH_EVENT) & LOCAL_EVENT == ev & LOCAL_EVENT) by (bit_vector);
    assert((ev | LOCAL_EVENT) & EXCH_EVENT == ev & EXCH_EVENT) by (bit_vector);
}

/// The corrected order of events that carry no flags yet is always valid.
pub proof fn law_corrected_order_is_valid<F>(
    data: Seq<Event<F>>,
    by_exch: Seq<usize>,
    by_local: Seq<usize>,
)
    requires
        stable_orders(data, by_exch, by_local),
        forall|i: int|
            0 <= i < data.len() ==> !types::is_exch(#[trigger] data[i]) && !types::is_local(
                data[i],
            ),
    ensures
        validation::exch_in_order(validation::corrected_order(data, by_exch, by_local)),
        validation::local_in_order(validation::corrected_order(data, by_exch, by_local)),
{
    lemma_start(data, by_exch, by_local);
    lemma_picks(data, by_exch, by_local, 0, 0);
    let picks = validation::merge_picks(data, by_exch, by_local, 0, 0);
    let result = validation::corrected_order(data, by_exch, by_local);
    assert forall|i: int| 0 <= i < result.len() implies types::is_exch(#[trigger] result[i])
        == picks[i].exch && types::is_local(result[i]) == picks[i].local by {
        assert(!types::is_exch(data[picks[i].index]));
        lemma_flags(data[picks[i].index], picks[i].exch, picks[i].local);
    }
}

proof fn lemma_min_latency<F>(data: Seq<Event<F>>, i: int)
    requires
        0 <= i < data.len(),
    ensures
        validation::min_latency(data) <= validation::latency(data[i]),
    decreases data.len(),
{
    if data.len() > 1 && i < data.len() - 1 {
        lemma_min_latency(data.drop_last(), i);
    }
}

proof fn lemma_min_latency_reached<F>(data: Seq<Event<F>>)
    requires
        data.len() > 0,
    ensures
        exists|i: int|
            0 <= i < data.len() && validation::latency(#[trigger] data[i])
                == validation::min_latency(data),
    decreases data.len(),
{
    if data.len() > 1 {
        lemma_min_latency_reached(data.drop_last());
        if validation::latency(data.last()) < validation::min_latency(data.drop_last()) {
            assert(validation::latency(data[data.len() - 1]) == validation::min_latency(data));
        } else {
            let i = choose|i: int|
                0 <= i < data.drop_last().len() && validation::latency(
                    #[trigger] data.drop_last()[i],
                ) == validation::min_latency(data.drop_last());
            assert(validation::latency(data[i]) == validation::min_latency(data));
        }
    } else {
        assert(validation::latency(data[0]) == validation::min_latency(data));
    }
}

/// After the correction no event arrives before it left the exchange: all
/// latencies are at least `base_latency` where an adjustment was needed, and
/// unchanged where it was not. The distances between local timestamps stay.
pub proof fn law_corrected_latency<F>(data: Seq<Event<F>>, base_latency: int)
    requires
        validation::timestamps_in_range(data, base_latency),
    ensures
        ({
            let offset = validation::local_offset(data, base_latency);
            let after = data.map_values(|e: Event<F>| validation::shifted(e, offset));
            &&& forall|i: int|
                0 <= i < data.len() ==> (#[trigger] after[i]).exch_ts == data[i].exch_ts
                    && after[i].local_ts == data[i].local_ts + offset
            &&& data.len() > 0 && validation::min_latency(data) < 0 ==> {
                &&& forall|i: int|
                    0 <= i < data.len() ==> validation::latency(#[trigger] after[i])
                        >= base_latency
                &&& exists|i: int|
                    0 <= i < data.len() && validation::latency(#[trigger] after[i])
                        == base_latency
            }
            &&& data.len() > 0 && validation::min_latency(data) >= 0 ==> after == data
            &&& base_latency >= 0 ==> forall|i: int|
                0 <= i < data.len() ==> validation::latency(#[trigger] after[i]) >= 0
        }),
{
    let offset = validation::local_offset(data, base_latency);
    let after = data.map_values(|e: Event<F>| validation::shifted(e, offset));
    assert forall|i: int| 0 <= i < data.len() implies (#[trigger] after[i]).exch_ts
        == data[i].exch_ts && after[i].local_ts == data[i].local_ts + offset
        && validation::min_latency(data) <= validation::latency(data[i]) by {
        lemma_min_latency(data, i);
        assert(i64::MIN <= data[i].local_ts + offset <= i64::MAX);
    }
    if data.len() > 0 {
        lemma_min_latency_reached(data);
        let i = choose|i: int|
            0 <= i < data.len() && validation::latency(#[trigger] data[i])
                == validation::min_latency(data);
        assert(after[i].exch_ts == data[i].exch_ts);
        if validation::min_latency(data) >= 0 {
            assert(after =~= data);
        }
    }
}

/// The least latency is that of one of the events, and no event has less.
pub proof fn law_least_latency<F>(data: Seq<Event<F>>)
    requires
        data.len() > 0,
    ensures
        forall|i: int|
            0 <= i < data.len() ==> validation::min_latency(data) <= (#[trigger] data[i]).local_ts
                - data[i].exch_ts,
        exists|i: int|
            0 <= i < data.len() && validation::min_latency(data) == (#[trigger] data[i]).local_ts
                - data[i].exch_ts,
    decreases data.len(),
{
    let n = data.len() - 1;
    if data.len() == 1 {
        assert(validation::min_latency(data) == data[0].local_ts - data[0].exch_ts);
    } else {
        let front = data.drop_last();
        law_least_latency(front);
        let k = choose|k: int|
            0 <= k < front.len() && validation::min_latency(front) == (#[trigger] front[k]).local_ts
                - front[k].exch_ts;
        assert(front[k] == data[k]);
        assert forall|i: int| 0 <= i < data.len() implies validation::min_latency(data) <= (
        #[trigger] data[i]).local_ts - data[i].exch_ts by {
            if i < n {
                assert(front[i] == data[i]);
            }
        }
        if validation::min_latency(data) != validation::min_latency(front) {
            assert(validation::min_latency(data) == data[n].local_ts - data[n].exch_ts);
        }
    }
}

/// Events that stand in the same order by both timestamps are not split: each
/// is taken once, for both orders, in turn.
pub proof fn law_events_in_one_order_are_not_split<F>(
    data: Seq<Event<F>>,
    order: Seq<usize>,
    a: int,
)
    requires
        validation::names_positions(order, data.len()),
        0 <= a <= data.len(),
    ensures
        ({
            let picks = validation::merge_picks(data, order, order, a, a);
            &&& picks.len() == data.len() - a
            &&& forall|i: int|
                0 <= i < picks.len() ==> (#[trigger] picks[i]).exch && picks[i].local
                    && picks[i].index == order[a + i]
        }),
    decreases data.len() - a,
{
    if a < data.len() {
        law_events_in_one_order_are_not_split(data, order, a + 1);
        let rest = validation::merge_picks(data, order, order, a + 1, a + 1);
        let picks = validation::merge_picks(data, order, order, a, a);
        assert(picks =~= seq![picks[0]] + rest);
        assert forall|i: int| 0 <= i < picks.len() implies (#[trigger] picks[i]).exch
            && picks[i].local && picks[i].index == order[a + i] by {
            if i > 0 {
                assert(picks[i] == rest[i - 1]);
            }
        }
    }
}

/// Of two different heads the earlier one is taken, by exchange and then by
/// local timestamp, and only for the order that it heads; the other one waits.
pub proof fn law_earlier_head_goes_first<F>(
    data: Seq<Event<F>>,
    by_exch: Seq<usize>,
    by_local: Seq<usize>,
    a: int,
    b: int,
)
    requires
        0 <= a < data.len(),
        0 <= b < data.len(),
    ensures
        ({
            let picks = validation::merge_picks(data, by_exch, by_local, a, b);
            let e = data[by_exch[a] as int];
            let l = data[by_local[b] as int];
            let earlier = e.exch_ts < l.exch_ts || (e.exch_ts == l.exch_ts && e.local_ts
                < l.local_ts);
            let later = l.exch_ts < e.exch_ts || (e.exch_ts == l.exch_ts && l.local_ts
                < e.local_ts);
            &&& picks.len() > 0
            &&& picks[0].exch == !later
            &&& picks[0].local == !earlier
            &&& !later ==> picks[0].index == by_exch[a]
            &&& later ==> picks[0].index == by_local[b]
            &&& picks.skip(1) == validation::merge_picks(
                data,
                by_exch,
                by_local,
                if later {
                    a
                } else {
                    a + 1
                },
                if earlier {
                    b
                } else {
                    b + 1
                },
            )
        }),
{
    let picks = validation::merge_picks(data, by_exch, by_local, a, b);
    let e = data[by_exch[a] as int];
    let l = data[by_local[b] as int];
    let later = l.exch_ts < e.exch_ts || (e.exch_ts == l.exch_ts && l.local_ts < e.local_ts);
    let earlier = e.exch_ts < l.exch_ts || (e.exch_ts == l.exch_ts && e.local_ts < l.local_ts);
    let rest = validation::merge_picks(
        data,
        by_exch,
        by_local,
        if later {
            a
        } else {
            a + 1
        },
        if earlier {
            b
        } else {
            b + 1
        },
    );
    assert(picks =~= seq![picks[0]] + rest);
    assert(picks.skip(1) =~= rest);
}

} // verus!
