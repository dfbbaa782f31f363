//! The last stage of every conversion: latency and order of the events.

use vstd::prelude::*;

use crate::data::order_laws;
use crate::data::sort;
use crate::data::validation;
use crate::types;
use crate::types::{
    Event, BUY_EVENT, EXCH_EVENT, LOCAL_EVENT, SELL_EVENT,
};

verus! {

/// The stable order of `keys`.
pub open spec fn stable_order_of(keys: Seq<i64>) -> Seq<usize> {
    choose|order: Seq<usize>| sort::is_stable_order(keys, order)
}

/// The event carries neither the exchange nor the local flag.
pub open spec fn plain<F>(e: Event<F>) -> bool {
    !types::is_exch(e) && !types::is_local(e)
}

/// None of the events carries the exchange or the local flag.
pub open spec fn all_plain<F>(events: Seq<Event<F>>) -> bool {
    forall|i: int| 0 <= i < events.len() ==> plain(#[trigger] events[i])
}

/// The events with their local timestamps moved so that no latency is negative.
pub open spec fn latency_corrected<F>(events: Seq<Event<F>>, base_latency: int) -> Seq<Event<F>> {
    events.map_values(
        |e: Event<F>| validation::shifted(e, validation::local_offset(events, base_latency)),
    )
}

/// The events in their corrected order.
pub open spec fn in_corrected_order<F>(events: Seq<Event<F>>) -> Seq<Event<F>> {
    validation::corrected_order(
        events,
        stable_order_of(validation::exch_keys(events)),
        stable_order_of(validation::local_keys(events)),
    )
}

/// The events corrected in latency and then in order.
pub open spec fn normalized<F>(events: Seq<Event<F>>, base_latency: int) -> Seq<Event<F>> {
    in_corrected_order(latency_corrected(events, base_latency))
}

/// The stable order is the one that sorting gives.
pub proof fn lemma_stable_order_of(keys: Seq<i64>, order: Seq<usize>)
    requires
        sort::is_stable_order(keys, order),
    ensures
        stable_order_of(keys) == order,
{
    sort::lemma_stable_order_unique(keys, stable_order_of(keys), order);
}

/// An event of a known kind and side carries no exchange or local flag.
pub proof fn lemma_kind_is_plain<F>(e: Event<F>, kind: u64, side: u64)
    requires
        kind <= 7,
        side == 0 || side == BUY_EVENT || side == SELL_EVENT,
        e.ev == kind | side,
    ensures
        plain(e),
{
    assert((kind | side) & EXCH_EVENT != EXCH_EVENT && (kind | side) & LOCAL_EVENT != LOCAL_EVENT)
        by (bit_vector)
        requires
            kind <= 7,
            side == 0 || side == BUY_EVENT || side == SELL_EVENT,
    ;
}

/// Corrects latency and order of converted events and validates the result.
pub fn normalize_events<F: Copy>(events: Vec<Event<F>>, base_latency: i64) -> (r: Result<
    Vec<Event<F>>,
    String,
>)
    requires
        validation::timestamps_in_range(events@, base_latency as int),
    ensures
        match r {
            Ok(data) => {
                &&& data@ == normalized(events@, base_latency as int)
                &&& validation::exch_in_order(data@)
                &&& validation::local_in_order(data@)
            },
            Err(message) => {
                let data = normalized(events@, base_latency as int);
                if validation::exch_in_order(data) {
                    !validation::local_in_order(data) && message@
                        == "local events are out of order"@
                } else {
                    message@ == "exchange events are out of order"@
                }
            },
        },
        all_plain(events@) ==> r is Ok,
{
    let mut events = events;
    let ghost start = events@;
    if events.len() == 0 {
        proof {
            let moved = latency_corrected(start, base_latency as int);
            assert(moved.len() == 0);
            assert(validation::merge_picks(
                moved,
                stable_order_of(validation::exch_keys(moved)),
                stable_order_of(validation::local_keys(moved)),
                0,
                0,
            ).len() == 0);
            assert(events@ =~= normalized(start, base_latency as int));
        }
        return Ok(events);
    }
    let _ = validation::correct_local_timestamp(events.as_mut_slice(), base_latency);
    let ghost moved = events@;
    assert(moved =~= latency_corrected(start, base_latency as int));
    let sorted_exch_indices = validation::argsort_by_exch_ts(events.as_slice());
    let sorted_local_indices = validation::argsort_by_local_ts(events.as_slice());
    let corrected = validation::correct_event_order(
        events.as_slice(),
        sorted_exch_indices.as_slice(),
        sorted_local_indices.as_slice(),
    );
    proof {
        lemma_stable_order_of(validation::exch_keys(moved), sorted_exch_indices@);
        lemma_stable_order_of(validation::local_keys(moved), sorted_local_indices@);
        if all_plain(start) {
            assert forall|i: int| 0 <= i < moved.len() implies !types::is_exch(
                #[trigger] moved[i],
            ) && !types::is_local(moved[i]) by {
                assert(plain(start[i]));
            }
            order_laws::law_corrected_order_is_valid(
                moved,
                sorted_exch_indices@,
                sorted_local_indices@,
            );
        }
    }
    match validation::validate_event_order(corrected.as_slice()) {
        Ok(_) => Ok(corrected),
        Err(message) => Err(message),
    }
}

} // verus!
