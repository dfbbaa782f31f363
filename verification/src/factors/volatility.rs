//! Sampling of returns at fixed time intervals.

use vstd::prelude::*;

verus! {

/// When returns are sampled, and from which price.
#[derive(Debug)]
pub struct ReturnSampler<F> {
    interval_ns: i64,
    last_price: F,
    last_timestamp: i64,
    sample_count: usize,
}

/// What a sampler holds.
pub struct SamplerModel<F> {
    pub last_price: F,
    pub last_timestamp: i64,
    pub sample_count: int,
}

impl<F> View for ReturnSampler<F> {
    type V = SamplerModel<F>;

    closed spec fn view(&self) -> SamplerModel<F> {
        SamplerModel {
            last_price: self.last_price,
            last_timestamp: self.last_timestamp,
            sample_count: self.sample_count as int,
        }
    }
}

/// What a price stands for.
#[derive(Debug)]
pub enum Sample<F> {
    /// The first price: there is no volatility yet.
    First,
    /// The interval has not passed: the volatility stays as it is.
    Waiting,
    /// The interval has passed, but there is no earlier price to compare with.
    NoReturn,
    /// A return from this earlier price is sampled.
    ReturnFrom(F),
}

/// Sampler and sample after a price. A timestamp of 0 counts as none.
pub open spec fn sampled<F>(
    s: SamplerModel<F>,
    interval_ns: i64,
    timestamp: i64,
    price: F,
    last_price_positive: bool,
) -> (SamplerModel<F>, Sample<F>) {
    if s.last_timestamp == 0 {
        (SamplerModel { last_price: price, last_timestamp: timestamp, ..s }, Sample::First)
    } else if timestamp - s.last_timestamp >= interval_ns {
        (
            SamplerModel {
                last_price: price,
                last_timestamp: timestamp,
                sample_count: s.sample_count + (if last_price_positive {
                    1int
                } else {
                    0int
                }),
            },
            if last_price_positive {
                Sample::ReturnFrom(s.last_price)
            } else {
                Sample::NoReturn
            },
        )
    } else {
        (s, Sample::Waiting)
    }
}

impl<F: Copy> ReturnSampler<F> {
    /// Time interval in nanoseconds.
    pub closed spec fn interval(&self) -> i64 {
        self.interval_ns
    }

    pub fn new(interval_ns: i64, zero: F) -> (r: Self)
        ensures
            r.interval() == interval_ns,
            r@ == (SamplerModel { last_price: zero, last_timestamp: 0, sample_count: 0 }),
    {
        ReturnSampler { interval_ns, last_price: zero, last_timestamp: 0, sample_count: 0 }
    }

    /// The price that the next return is taken from.
    pub fn last_price(&self) -> (r: F)
        ensures
            r == self@.last_price,
    {
        self.last_price
    }

    /// Takes a price. `last_price_positive` tells whether the price that a
    /// return would be taken from is above zero.
    pub fn observe(&mut self, timestamp: i64, price: F, last_price_positive: bool) -> (r: Sample<F>)
        requires
            old(self)@.last_timestamp != 0 ==> i64::MIN <= timestamp - old(self)@.last_timestamp
                <= i64::MAX,
            old(self)@.sample_count < usize::MAX,
        ensures
            final(self).interval() == old(self).interval(),
            (final(self)@, r) == sampled(
                old(self)@,
                old(self).interval(),
                timestamp,
                price,
                last_price_positive,
            ),
    {
        if self.last_timestamp == 0 {
            self.last_price = price;
            self.last_timestamp = timestamp;
            return Sample::First;
        }
        if timestamp - self.last_timestamp >= self.interval_ns {
            let from = self.last_price;
            self.last_price = price;
            self.last_timestamp = timestamp;
            if last_price_positive {
                self.sample_count = self.sample_count + 1;
                return Sample::ReturnFrom(from);
            }
            return Sample::NoReturn;
        }
        Sample::Waiting
    }

    /// Returns the number of return samples collected.
    pub fn sample_count(&self) -> (r: usize)
        ensures
            r == self@.sample_count,
    {
        self.sample_count
    }

    /// Starts over.
    pub fn reset(&mut self, zero: F)
        ensures
            final(self).interval() == old(self).interval(),
            final(self)@ == (SamplerModel { last_price: zero, last_timestamp: 0, sample_count: 0 }),
    {
        self.last_price = zero;
        self.last_timestamp = 0;
        self.sample_count = 0;
    }
}

} // verus!
