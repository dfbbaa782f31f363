//! Sum over the entries of a sliding time window.

use std::collections::VecDeque;
use vstd::prelude::*;

use crate::numbers;

verus! {

/// Time-windowed queue for aggregating values within a time window.
#[derive(Debug)]
pub struct TimeWindowQueue<F> {
    window_ns: i64,
    entries: VecDeque<(i64, F)>,
    sum: F,
}

/// What a queue holds: entries with their timestamps, and the running sum.
#[verifier::ext_equal]
pub struct WindowModel<F> {
    pub entries: Seq<(i64, F)>,
    pub sum: F,
}

impl<F> View for TimeWindowQueue<F> {
    type V = WindowModel<F>;

    closed spec fn view(&self) -> WindowModel<F> {
        WindowModel { entries: self.entries@, sum: self.sum }
    }
}

/// The queue without the leading entries that are older than `cutoff`; their
/// values are taken off the sum one by one.
pub open spec fn expired<F, M: Fn(F, F) -> F>(w: WindowModel<F>, cutoff: int, sub: M) -> WindowModel<
    F,
>
    decreases w.entries.len(),
{
    if w.entries.len() > 0 && w.entries[0].0 < cutoff {
        expired(
            WindowModel {
                entries: w.entries.drop_first(),
                sum: numbers::combined(sub, w.sum, w.entries[0].1),
            },
            cutoff,
            sub,
        )
    } else {
        w
    }
}

/// The queue after an entry: it is put behind the others and added to the
/// sum, then entries that have left the window expire.
pub open spec fn with_entry<F, A: Fn(F, F) -> F, M: Fn(F, F) -> F>(
    w: WindowModel<F>,
    window_ns: i64,
    timestamp: i64,
    value: F,
    plus: A,
    minus: M,
) -> WindowModel<F> {
    expired(
        WindowModel {
            entries: w.entries.push((timestamp, value)),
            sum: numbers::combined(plus, w.sum, value),
        },
        timestamp - window_ns,
        minus,
    )
}

impl<F: Copy> TimeWindowQueue<F> {
    /// Length of the window in nanoseconds.
    pub closed spec fn window(&self) -> i64 {
        self.window_ns
    }

    /// Creates a new time window queue with the specified window in nanoseconds.
    pub fn new(window_ns: i64, zero: F) -> (r: Self)
        ensures
            r.window() == window_ns,
            r@ == (WindowModel { entries: Seq::<(i64, F)>::empty(), sum: zero }),
    {
        TimeWindowQueue { window_ns, entries: VecDeque::new(), sum: zero }
    }

    /// Adds a new value at the given timestamp and returns the current sum.
    pub fn update<A: Fn(F, F) -> F, M: Fn(F, F) -> F>(
        &mut self,
        timestamp: i64,
        value: F,
        plus: &A,
        minus: &M,
    ) -> (r: F)
        requires
            numbers::combines(*plus),
            numbers::combines(*minus),
            i64::MIN <= timestamp - old(self).window() <= i64::MAX,
        ensures
            final(self).window() == old(self).window(),
            final(self)@ == with_entry(
                old(self)@,
                old(self).window(),
                timestamp,
                value,
                *plus,
                *minus,
            ),
            r == final(self)@.sum,
    {
        self.entries.push_back((timestamp, value));
        self.sum = numbers::combine(plus, self.sum, value);
        let cutoff: i64 = timestamp - self.window_ns;
        let ghost goal = expired(self@, cutoff as int, *minus);
        while self.entries.len() > 0 && self.entries[0].0 < cutoff
            invariant
                numbers::combines(*minus),
                self.window_ns == old(self).window_ns,
                expired(self@, cutoff as int, *minus) == goal,
            decreases self.entries@.len(),
        {
            let ghost before = self.entries@;
            let val = self.entries[0].1;
            let _ = self.entries.pop_front();
            assert(self.entries@ =~= before.drop_first());
            self.sum = numbers::combine(minus, self.sum, val);
        }
        self.sum
    }

    /// Returns the current sum of values in the window.
    pub fn sum(&self) -> (r: F)
        ensures
            r == self@.sum,
    {
        self.sum
    }

    /// Returns the number of entries in the window.
    pub fn count(&self) -> (r: usize)
        ensures
            r == self@.entries.len(),
    {
        self.entries.len()
    }

    /// Clears all entries.
    pub fn clear(&mut self, zero: F)
        ensures
            final(self).window() == old(self).window(),
            final(self)@ == (WindowModel { entries: Seq::<(i64, F)>::empty(), sum: zero }),
    {
        self.entries.clear();
        self.sum = zero;
    }

    /// Returns true if the queue is empty.
    pub fn is_empty(&self) -> (r: bool)
        ensures
            r == (self@.entries.len() == 0),
    {
        self.entries.len() == 0
    }
}

proof fn lemma_expired<F, M: Fn(F, F) -> F>(w: WindowModel<F>, cutoff: int, sub: M)
    requires
        forall|i: int, j: int|
            0 <= i < j < w.entries.len() ==> (#[trigger] w.entries[i]).0 <= (
            #[trigger] w.entries[j]).0,
    ensures
        ({
            let kept = expired(w, cutoff, sub).entries;
            &&& kept.len() <= w.entries.len()
            &&& kept == w.entries.skip(w.entries.len() - kept.len())
            &&& forall|i: int|
                0 <= i < w.entries.len() - kept.len() ==> (#[trigger] w.entries[i]).0 < cutoff
            &&& forall|i: int| 0 <= i < kept.len() ==> (#[trigger] kept[i]).0 >= cutoff
        }),
    decreases w.entries.len(),
{
    let kept = expired(w, cutoff, sub).entries;
    if w.entries.len() > 0 && w.entries[0].0 < cutoff {
        let next = WindowModel {
            entries: w.entries.drop_first(),
            sum: numbers::combined(sub, w.sum, w.entries[0].1),
        };
        assert forall|i: int, j: int| 0 <= i < j < next.entries.len() implies (
        #[trigger] next.entries[i]).0 <= (#[trigger] next.entries[j]).0 by {
            assert(w.entries[i + 1].0 <= w.entries[j + 1].0);
        }
        lemma_expired(next, cutoff, sub);
        assert(kept =~= w.entries.skip(w.entries.len() - kept.len()));
        assert forall|i: int| 0 <= i < w.entries.len() - kept.len() implies (
        #[trigger] w.entries[i]).0 < cutoff by {
            if i > 0 {
                assert(next.entries[i - 1].0 < cutoff);
            }
        }
    } else {
        assert(w.entries.skip(0) =~= w.entries);
        assert forall|i: int| 0 <= i < kept.len() implies (#[trigger] kept[i]).0 >= cutoff by {
            if i > 0 {
                assert(w.entries[0].0 <= w.entries[i].0);
            }
        }
    }
}

/// With timestamps that never run backwards, the queue holds exactly the
/// entries of the window after each update.
pub proof fn law_queue_holds_the_window<F, A: Fn(F, F) -> F, M: Fn(F, F) -> F>(
    w: WindowModel<F>,
    window_ns: i64,
    timestamp: i64,
    value: F,
    plus: A,
    minus: M,
)
    requires
        forall|i: int, j: int|
            0 <= i < j < w.entries.len() ==> (#[trigger] w.entries[i]).0 <= (
            #[trigger] w.entries[j]).0,
        forall|i: int| 0 <= i < w.entries.len() ==> (#[trigger] w.entries[i]).0 <= timestamp,
    ensures
        ({
            let all = w.entries.push((timestamp, value));
            let kept = with_entry(w, window_ns, timestamp, value, plus, minus).entries;
            let cutoff = timestamp - window_ns;
            &&& kept.len() <= all.len()
            &&& kept == all.skip(all.len() - kept.len())
            &&& forall|i: int|
                0 <= i < all.len() - kept.len() ==> (#[trigger] all[i]).0 < cutoff
            &&& forall|i: int| 0 <= i < kept.len() ==> (#[trigger] kept[i]).0 >= cutoff
        }),
{
    let all = w.entries.push((timestamp, value));
    lemma_expired(
        WindowModel { entries: all, sum: numbers::combined(plus, w.sum, value) },
        timestamp - window_ns,
        minus,
    );
}

} // verus!
