//! Limit on how often something is requested.

use vstd::prelude::*;

verus! {

/// The times that are less than `window` before `now`.
pub open spec fn recent(times: Seq<u64>, now: u64, window: u64) -> Seq<u64>
    decreases times.len(),
{
    if times.len() == 0 {
        Seq::empty()
    } else {
        let front = recent(times.drop_last(), now, window);
        if now < times.last() + window {
            front.push(times.last())
        } else {
            front
        }
    }
}

/// Lets at most `limit` requests through within any `window`. Times are in
/// the unit of the window.
#[derive(Debug)]
pub struct Throttler {
    limit: usize,
    window: u64,
    /// When requests were let through, as far as they still count.
    times: Vec<u64>,
}

impl View for Throttler {
    type V = Seq<u64>;

    /// When requests were let through, as far as they still count.
    closed spec fn view(&self) -> Seq<u64> {
        self.times@
    }
}

impl Throttler {
    /// How many requests are let through within the window.
    pub closed spec fn limit(&self) -> usize {
        self.limit
    }

    /// How long a request counts.
    pub closed spec fn window(&self) -> u64 {
        self.window
    }

    /// No more requests count than are let through.
    pub open spec fn wf(&self) -> bool {
        self@.len() <= self.limit()
    }

    pub fn new(limit: usize, window: u64) -> (r: Self)
        ensures
            r.wf(),
            r.limit() == limit,
            r.window() == window,
            r@ == Seq::<u64>::empty(),
    {
        Throttler { limit, window, times: Vec::new() }
    }

    /// Tells whether a request is let through now.
    pub fn let_through(&mut self, now: u64) -> (r: bool)
        requires
            old(self).wf(),
        ensures
            final(self).wf(),
            final(self).limit() == old(self).limit(),
            final(self).window() == old(self).window(),
            ({
                let counting = recent(old(self)@, now, old(self).window());
                &&& r == (counting.len() < old(self).limit())
                &&& final(self)@ == (if r {
                    counting.push(now)
                } else {
                    counting
                })
            }),
    {
        let ghost before = self.times@;
        let mut counting: Vec<u64> = Vec::new();
        let mut i: usize = 0;
        assert(before.take(0) =~= Seq::empty());
        while i < self.times.len()
            invariant
                self.times@ == before,
                i <= before.len(),
                counting@.len() <= i,
                counting@ == recent(before.take(i as int), now, self.window),
            decreases before.len() - i,
        {
            let time: u64 = self.times[i];
            assert(before.take(i as int + 1).drop_last() =~= before.take(i as int));
            if now < time || now - time < self.window {
                counting.push(time);
            }
            i += 1;
        }
        assert(before.take(i as int) =~= before);
        let through: bool = counting.len() < self.limit;
        if through {
            counting.push(now);
        }
        self.times = counting;
        through
    }
}

} // verus!
