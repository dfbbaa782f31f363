//! Event order validation and correction.

use vstd::prelude::*;

use crate::data::sort;
use crate::types;
use crate::types::{Event, EXCH_EVENT, LOCAL_EVENT};

verus! {

/// Feed latency of an event.
pub open spec fn latency<F>(e: Event<F>) -> int {
    e.local_ts - e.exch_ts
}

/// The least feed latency of a non-empty run of events.
pub open spec fn min_latency<F>(data: Seq<Event<F>>) -> int
    decreases data.len(),
{
    if data.len() <= 1 {
        latency(data[0])
    } else {
        let rest = min_latency(data.drop_last());
        if latency(data.last()) < rest {
            latency(data.last())
        } else {
            rest
        }
    }
}

/// How far local timestamps are moved: only where the least latency is
/// negative, and then so that it becomes `base_latency`.
pub open spec fn local_offset<F>(data: Seq<Event<F>>, base_latency: int) -> int {
    if data.len() > 0 && min_latency(data) < 0 {
        base_latency - min_latency(data)
    } else {
        0
    }
}

/// The event with its local timestamp moved.
pub open spec fn shifted<F>(e: Event<F>, offset: int) -> Event<F> {
    Event { local_ts: (e.local_ts + offset) as i64, ..e }
}

/// All numbers that the correction computes are 64-bit numbers.
pub open spec fn timestamps_in_range<F>(data: Seq<Event<F>>, base_latency: int) -> bool {
    &&& forall|i: int|
        0 <= i < data.len() ==> i64::MIN <= latency(#[trigger] data[i]) <= i64::MAX
    &&& data.len() > 0 && min_latency(data) < 0 ==> {
        &&& min_latency(data) > i64::MIN
        &&& i64::MIN <= local_offset(data, base_latency) <= i64::MAX
        &&& forall|i: int|
            0 <= i < data.len() ==> i64::MIN <= (#[trigger] data[i]).local_ts + local_offset(
                data,
                base_latency,
            ) <= i64::MAX
    }
}

/// Adjusts the local timestamps where the feed latency is negative, by
/// offsetting all of them by the largest negative latency.
///
/// ```text
/// feed_latency = local_timestamp - exch_timestamp
/// adjusted_local_timestamp = local_timestamp - min(feed_latency, 0) + base_latency
/// ```
///
/// Returns the least latency found before the correction, 0 where there are
/// no events.
pub fn correct_local_timestamp<F: Copy>(data: &mut [Event<F>], base_latency: i64) -> (r: i64)
    requires
        timestamps_in_range(old(data)@, base_latency as int),
    ensures
        r == (if old(data)@.len() == 0 {
            0
        } else {
            min_latency(old(data)@)
        }),
        final(data)@ == old(data)@.map_values(
            |e: Event<F>| shifted(e, local_offset(old(data)@, base_latency as int)),
        ),
{
    let n: usize = data.len();
    if n == 0 {
        assert(data@ =~= data@.map_values(
            |e: Event<F>| shifted(e, local_offset(data@, base_latency as int)),
        ));
        return 0;
    }
    let ghost start = data@;
    let mut least: i64 = data[0].local_ts - data[0].exch_ts;
    let mut i: usize = 1;
    assert(start.take(1).len() == 1);
    while i < n
        invariant
            1 <= i <= n,
            n == start.len(),
            data@ == start,
            timestamps_in_range(start, base_latency as int),
            least == min_latency(start.take(i as int)),
        decreases n - i,
    {
        let latency: i64 = data[i].local_ts - data[i].exch_ts;
        assert(start.take(i as int + 1).drop_last() =~= start.take(i as int));
        if latency < least {
            least = latency;
        }
        i += 1;
    }
    assert(start.take(n as int) =~= start);
    let ghost offset_spec = local_offset(start, base_latency as int);
    if least < 0 {
        let offset: i64 = -least + base_latency;
        let mut k: usize = 0;
        while k < n
            invariant
                k <= n,
                n == start.len(),
                n > 0,
                data@.len() == n,
                offset == offset_spec,
                offset_spec == local_offset(start, base_latency as int),
                min_latency(start) < 0,
                timestamps_in_range(start, base_latency as int),
                forall|j: int| 0 <= j < k ==> #[trigger] data@[j] == shifted(start[j], offset_spec),
                forall|j: int| k <= j < n ==> #[trigger] data@[j] == start[j],
            decreases n - k,
        {
            let e = data[k];
            assert(e == start[k as int]);
            let moved = Event {
                ev: e.ev,
                exch_ts: e.exch_ts,
                local_ts: e.local_ts + offset,
                px: e.px,
                qty: e.qty,
                order_id: e.order_id,
                ival: e.ival,
                fval: e.fval,
            };
            data[k] = moved;
            k += 1;
        }
    }
    assert(data@ =~= start.map_values(|e: Event<F>| shifted(e, offset_spec)));
    least
}

/// The event at a position of two lists, one behind the other.
fn event_at<F: Copy>(data: &[Event<F>], tail: &[Event<F>], i: u128) -> (r: Event<F>)
    requires
        i < data@.len() + tail@.len(),
    ensures
        r == (data@ + tail@)[i as int],
{
    let n: u128 = data.len() as u128;
    if i < n {
        data[i as usize]
    } else {
        tail[(i - n) as usize]
    }
}

/// Tells whether all numbers that the correction computes are 64-bit numbers.
pub fn timestamps_fit<F: Copy>(data: &[Event<F>], base_latency: i64) -> (r: bool)
    ensures
        r == timestamps_in_range(data@, base_latency as int),
{
    let tail: Vec<Event<F>> = Vec::new();
    assert(data@ + tail@ =~= data@);
    timestamps_fit_with(data, tail.as_slice(), base_latency)
}

/// Tells whether all numbers that the correction computes are 64-bit numbers
/// where more events follow behind `data`.
pub fn timestamps_fit_with<F: Copy>(
    data: &[Event<F>],
    tail: &[Event<F>],
    base_latency: i64,
) -> (r: bool)
    ensures
        r == timestamps_in_range(data@ + tail@, base_latency as int),
{
    let ghost all = data@ + tail@;
    let n: u128 = data.len() as u128 + tail.len() as u128;
    if n == 0 {
        return true;
    }
    let first = event_at(data, tail, 0);
    let mut least: i128 = first.local_ts as i128 - first.exch_ts as i128;
    let mut i: u128 = 0;
    assert(all.take(1).len() == 1);
    while i < n
        invariant
            i <= n,
            0 < n,
            all == data@ + tail@,
            n == all.len(),
            -0x1_0000_0000_0000_0000 <= least <= 0x1_0000_0000_0000_0000,
            i == 0 ==> least == latency(all[0]),
            i > 0 ==> least == min_latency(all.take(i as int)),
            forall|j: int| 0 <= j < i ==> i64::MIN <= latency(#[trigger] all[j]) <= i64::MAX,
        decreases n - i,
    {
        let e = event_at(data, tail, i);
        let latency: i128 = e.local_ts as i128 - e.exch_ts as i128;
        if latency < -9223372036854775808 || latency > 9223372036854775807 {
            assert(!(i64::MIN <= self::latency(all[i as int]) <= i64::MAX));
            return false;
        }
        assert(all.take(i as int + 1).drop_last() =~= all.take(i as int));
        if latency < least {
            least = latency;
        }
        i += 1;
    }
    assert(all.take(n as int) =~= all);
    if least >= 0 {
        return true;
    }
    let offset: i128 = base_latency as i128 - least;
    if least <= -9223372036854775808 || offset < -9223372036854775808 || offset
        > 9223372036854775807 {
        return false;
    }
    let mut k: u128 = 0;
    while k < n
        invariant
            k <= n,
            all == data@ + tail@,
            n == all.len(),
            n > 0,
            least == min_latency(all),
            least < 0,
            offset == local_offset(all, base_latency as int),
            i64::MIN <= offset <= i64::MAX,
            forall|j: int|
                0 <= j < k ==> i64::MIN <= (#[trigger] all[j]).local_ts + offset <= i64::MAX,
        decreases n - k,
    {
        let moved: i128 = event_at(data, tail, k).local_ts as i128 + offset;
        if moved < -9223372036854775808 || moved > 9223372036854775807 {
            assert(!(i64::MIN <= all[k as int].local_ts + offset <= i64::MAX));
            return false;
        }
        k += 1;
    }
    true
}

/// One step of the merged order: the event at `index` with the flags to set.
pub struct Pick {
    pub index: int,
    pub exch: bool,
    pub local: bool,
}

/// The event with the flags set that a pick asks for.
pub open spec fn flagged<F>(e: Event<F>, exch: bool, local: bool) -> Event<F> {
    Event {
        ev: if exch && local {
            e.ev | (EXCH_EVENT | LOCAL_EVENT)
        } else if exch {
            e.ev | EXCH_EVENT
        } else if local {
            e.ev | LOCAL_EVENT
        } else {
            e.ev
        },
        ..e
    }
}

/// Merges the two orders from positions `a` and `b` on. An event that heads
/// both is taken once; else the one with the earlier exchange timestamp goes
/// first, and of equal ones the exchange side if its local timestamp is
/// earlier.
pub open spec fn merge_picks<F>(
    data: Seq<Event<F>>,
    by_exch: Seq<usize>,
    by_local: Seq<usize>,
    a: int,
    b: int,
) -> Seq<Pick>
    decreases 2 * data.len() - a - b,
{
    let n = data.len();
    if !(0 <= a <= n && 0 <= b <= n) || (a == n && b == n) {
        Seq::empty()
    } else if b == n {
        seq![Pick { index: by_exch[a] as int, exch: true, local: false }] + merge_picks(
            data,
            by_exch,
            by_local,
            a + 1,
            b,
        )
    } else if a == n {
        seq![Pick { index: by_local[b] as int, exch: false, local: true }] + merge_picks(
            data,
            by_exch,
            by_local,
            a,
            b + 1,
        )
    } else {
        let e = data[by_exch[a] as int];
        let l = data[by_local[b] as int];
        if e.exch_ts == l.exch_ts && e.local_ts == l.local_ts {
            seq![Pick { index: by_exch[a] as int, exch: true, local: true }] + merge_picks(
                data,
                by_exch,
                by_local,
                a + 1,
                b + 1,
            )
        } else if e.exch_ts < l.exch_ts || (e.exch_ts == l.exch_ts && e.local_ts < l.local_ts) {
            seq![Pick { index: by_exch[a] as int, exch: true, local: false }] + merge_picks(
                data,
                by_exch,
                by_local,
                a + 1,
                b,
            )
        } else {
            seq![Pick { index: by_local[b] as int, exch: false, local: true }] + merge_picks(
                data,
                by_exch,
                by_local,
                a,
                b + 1,
            )
        }
    }
}

/// The events that a list of picks stands for.
pub open spec fn picked<F>(data: Seq<Event<F>>, picks: Seq<Pick>) -> Seq<Event<F>> {
    picks.map_values(|p: Pick| flagged(data[p.index], p.exch, p.local))
}

/// The corrected order of `data`.
pub open spec fn corrected_order<F>(
    data: Seq<Event<F>>,
    by_exch: Seq<usize>,
    by_local: Seq<usize>,
) -> Seq<Event<F>> {
    picked(data, merge_picks(data, by_exch, by_local, 0, 0))
}

/// `order` names a position of `data` for each of its events.
pub open spec fn names_positions(order: Seq<usize>, n: nat) -> bool {
    order.len() >= n && forall|i: int| 0 <= i < n ==> (#[trigger] order[i]) < n
}

/// Corrects exchange timestamps that are reversed by splitting each row into
/// separate events, ordered by both exchange and local timestamps.
///
/// `sorted_exch_indices` sorts `data` by exchange timestamp and
/// `sorted_local_indices` by local timestamp. Each event of the result has
/// the `EXCH_EVENT` and `LOCAL_EVENT` flags of the order that it stands in.
pub fn correct_event_order<F: Copy>(
    data: &[Event<F>],
    sorted_exch_indices: &[usize],
    sorted_local_indices: &[usize],
) -> (r: Vec<Event<F>>)
    requires
        names_positions(sorted_exch_indices@, data@.len()),
        names_positions(sorted_local_indices@, data@.len()),
    ensures
        r@ == corrected_order(data@, sorted_exch_indices@, sorted_local_indices@),
{
    let n: usize = data.len();
    let mut result: Vec<Event<F>> = Vec::new();
    let mut exch_rn: usize = 0;
    let mut local_rn: usize = 0;
    let ghost goal = corrected_order(data@, sorted_exch_indices@, sorted_local_indices@);
    assert(result@ + goal =~= goal);
    while exch_rn < n || local_rn < n
        invariant
            n == data@.len(),
            exch_rn <= n,
            local_rn <= n,
            names_positions(sorted_exch_indices@, data@.len()),
            names_positions(sorted_local_indices@, data@.len()),
            goal == corrected_order(data@, sorted_exch_indices@, sorted_local_indices@),
            result@ + picked(
                data@,
                merge_picks(
                    data@,
                    sorted_exch_indices@,
                    sorted_local_indices@,
                    exch_rn as int,
                    local_rn as int,
                ),
            ) == goal,
        decreases 2 * n - exch_rn - local_rn,
    {
        let ghost before = result@;
        let ghost rest = merge_picks(
            data@,
            sorted_exch_indices@,
            sorted_local_indices@,
            exch_rn as int,
            local_rn as int,
        );
        assert(rest.len() > 0);
        assert(rest =~= seq![rest[0]] + rest.skip(1));
        let mut take_exch: bool = local_rn >= n;
        let mut take_local: bool = exch_rn >= n;
        if exch_rn < n && local_rn < n {
            let exch = data[sorted_exch_indices[exch_rn]];
            let local = data[sorted_local_indices[local_rn]];
            if exch.exch_ts == local.exch_ts && exch.local_ts == local.local_ts {
                take_exch = true;
                take_local = true;
            } else if exch.exch_ts == local.exch_ts && exch.local_ts < local.local_ts {
                take_exch = true;
            } else if exch.exch_ts < local.exch_ts {
                take_exch = true;
            } else {
                take_local = true;
            }
        }
        let mut event = if take_exch {
            data[sorted_exch_indices[exch_rn]]
        } else {
            data[sorted_local_indices[local_rn]]
        };
        if take_exch && take_local {
            event.ev = event.ev | (EXCH_EVENT | LOCAL_EVENT);
        } else if take_exch {
            event.ev = event.ev | EXCH_EVENT;
        } else {
            event.ev = event.ev | LOCAL_EVENT;
        }
        result.push(event);
        if take_exch {
            exch_rn += 1;
        }
        if take_local {
            local_rn += 1;
        }
        proof {
            let next = merge_picks(
                data@,
                sorted_exch_indices@,
                sorted_local_indices@,
                exch_rn as int,
                local_rn as int,
            );
            assert(rest.skip(1) =~= next);
            assert(event == flagged(data@[rest[0].index], rest[0].exch, rest[0].local));
            assert(picked(data@, rest) =~= seq![event] + picked(data@, next));
            assert(result@ + picked(data@, next) =~= before + picked(data@, rest));
        }
    }
    assert(result@ =~= goal);
    result
}

/// Events valid at the exchange come by exchange timestamp.
pub open spec fn exch_in_order<F>(data: Seq<Event<F>>) -> bool {
    forall|i: int, j: int|
        0 <= i < j < data.len() && types::is_exch(#[trigger] data[i]) && types::is_exch(
            #[trigger] data[j],
        ) ==> data[i].exch_ts <= data[j].exch_ts
}

/// Events valid locally come by local timestamp.
pub open spec fn local_in_order<F>(data: Seq<Event<F>>) -> bool {
    forall|i: int, j: int|
        0 <= i < j < data.len() && types::is_local(#[trigger] data[i]) && types::is_local(
            #[trigger] data[j],
        ) ==> data[i].local_ts <= data[j].local_ts
}

/// Validates that the order of events is correct.
pub fn validate_event_order<F: Copy>(data: &[Event<F>]) -> (r: Result<(), String>)
    ensures
        match r {
            Ok(_) => exch_in_order(data@) && local_in_order(data@),
            Err(message) => if exch_in_order(data@) {
                !local_in_order(data@) && message@ == "local events are out of order"@
            } else {
                message@ == "exchange events are out of order"@
            },
        },
{
    let mut prev_exch_ts: i64 = i64::MIN;
    let mut i: usize = 0;
    let ghost mut last: int = -1;
    while i < data.len()
        invariant
            i <= data@.len(),
            -1 <= last < i,
            last == -1 ==> prev_exch_ts == i64::MIN,
            last >= 0 ==> types::is_exch(data@[last]) && prev_exch_ts == data@[last].exch_ts,
            forall|j: int|
                0 <= j < i && types::is_exch(#[trigger] data@[j]) ==> last >= 0
                    && data@[j].exch_ts <= prev_exch_ts,
            forall|j: int, k: int|
                0 <= j < k < i && types::is_exch(#[trigger] data@[j]) && types::is_exch(
                    #[trigger] data@[k],
                ) ==> data@[j].exch_ts <= data@[k].exch_ts,
        decreases data@.len() - i,
    {
        if (data[i].ev & EXCH_EVENT) == EXCH_EVENT {
            if data[i].exch_ts < prev_exch_ts {
                assert(types::is_exch(data@[last]) && types::is_exch(data@[i as int]));
                assert(!exch_in_order(data@));
                return Err("exchange events are out of order".to_string());
            }
            prev_exch_ts = data[i].exch_ts;
            proof {
                last = i as int;
            }
        }
        i += 1;
    }
    assert(exch_in_order(data@));

    let mut prev_local_ts: i64 = i64::MIN;
    let mut i: usize = 0;
    proof {
        last = -1;
    }
    while i < data.len()
        invariant
            exch_in_order(data@),
            i <= data@.len(),
            -1 <= last < i,
            last == -1 ==> prev_local_ts == i64::MIN,
            last >= 0 ==> types::is_local(data@[last]) && prev_local_ts == data@[last].local_ts,
            forall|j: int|
                0 <= j < i && types::is_local(#[trigger] data@[j]) ==> last >= 0
                    && data@[j].local_ts <= prev_local_ts,
            forall|j: int, k: int|
                0 <= j < k < i && types::is_local(#[trigger] data@[j]) && types::is_local(
                    #[trigger] data@[k],
                ) ==> data@[j].local_ts <= data@[k].local_ts,
        decreases data@.len() - i,
    {
        if (data[i].ev & LOCAL_EVENT) == LOCAL_EVENT {
            if data[i].local_ts < prev_local_ts {
                assert(types::is_local(data@[last]) && types::is_local(data@[i as int]));
                assert(!local_in_order(data@));
                return Err("local events are out of order".to_string());
            }
            prev_local_ts = data[i].local_ts;
            proof {
                last = i as int;
            }
        }
        i += 1;
    }
    Ok(())
}

/// The exchange timestamps of events.
pub open spec fn exch_keys<F>(data: Seq<Event<F>>) -> Seq<i64> {
    data.map_values(|e: Event<F>| e.exch_ts)
}

/// The local timestamps of events.
pub open spec fn local_keys<F>(data: Seq<Event<F>>) -> Seq<i64> {
    data.map_values(|e: Event<F>| e.local_ts)
}

/// Creates sorted indices by exchange timestamp (stable sort).
pub fn argsort_by_exch_ts<F: Copy>(data: &[Event<F>]) -> (r: Vec<usize>)
    ensures
        sort::is_stable_order(exch_keys(data@), r@),
{
    let mut keys: Vec<i64> = Vec::new();
    let mut i: usize = 0;
    while i < data.len()
        invariant
            i <= data@.len(),
            keys@ == exch_keys(data@.take(i as int)),
        decreases data@.len() - i,
    {
        keys.push(data[i].exch_ts);
        i += 1;
        assert(keys@ =~= exch_keys(data@.take(i as int)));
    }
    assert(data@.take(i as int) =~= data@);
    sort::stable_order(&keys)
}

/// Creates sorted indices by local timestamp (stable sort).
pub fn argsort_by_local_ts<F: Copy>(data: &[Event<F>]) -> (r: Vec<usize>)
    ensures
        sort::is_stable_order(local_keys(data@), r@),
{
    let mut keys: Vec<i64> = Vec::new();
    let mut i: usize = 0;
    while i < data.len()
        invariant
            i <= data@.len(),
            keys@ == local_keys(data@.take(i as int)),
        decreases data@.len() - i,
    {
        keys.push(data[i].local_ts);
        i += 1;
        assert(keys@ =~= local_keys(data@.take(i as int)));
    }
    assert(data@.take(i as int) =~= data@);
    sort::stable_order(&keys)
}

} // verus!
