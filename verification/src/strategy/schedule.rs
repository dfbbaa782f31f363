//! When the strategy acts: once per update period, with a volatility check
//! every sixth one.

use vstd::prelude::*;

verus! {

/// Quotient towards zero.
pub open spec fn quotient(a: int, b: int) -> int
    recommends
        b != 0,
{
    if a >= 0 && b > 0 {
        a / b
    } else if a < 0 && b > 0 {
        -((-a) / b)
    } else if a >= 0 {
        -(a / (-b))
    } else {
        (-a) / (-b)
    }
}

/// Divides towards zero.
pub fn divide(a: i64, b: i64) -> (r: i64)
    requires
        b != 0,
        !(a == i64::MIN && b == -1),
    ensures
        r == quotient(a as int, b as int),
{
    let x: i128 = if a >= 0 {
        a as i128
    } else {
        -(a as i128)
    };
    let y: i128 = if b > 0 {
        b as i128
    } else {
        -(b as i128)
    };
    let q: i128 = x / y;
    assert(0 <= q <= x) by (nonlinear_arith)
        requires
            q == x / y,
            x >= 0,
            y >= 1,
    ;
    proof {
        if x == 0x8000_0000_0000_0000 && (a >= 0) == (b > 0) {
            assert(y >= 2);
            assert(q <= 0x4000_0000_0000_0000) by (nonlinear_arith)
                requires
                    q == x / y,
                    x == 0x8000_0000_0000_0000,
                    y >= 2,
            ;
        }
    }
    if (a >= 0) == (b > 0) {
        q as i64
    } else {
        (-q) as i64
    }
}

/// Periods of the last actions; -1 where there was none.
#[derive(Debug)]
pub struct Schedule {
    last_check_period: i64,
    last_change_period: i64,
}

/// What a schedule holds.
pub struct ScheduleModel {
    pub last_check: i64,
    pub last_change: i64,
}

impl View for Schedule {
    type V = ScheduleModel;

    closed spec fn view(&self) -> ScheduleModel {
        ScheduleModel { last_check: self.last_check_period, last_change: self.last_change_period }
    }
}

/// The period of a timestamp.
pub open spec fn period_of(timestamp: i64, interval_ns: i64) -> int {
    quotient(timestamp as int, interval_ns as int)
}

/// The volatility period of an update period.
pub open spec fn change_period_of(period: int) -> int {
    quotient(period, 6)
}

impl Schedule {
    pub fn new() -> (r: Self)
        ensures
            r@ == (ScheduleModel { last_check: (-1i64) as i64, last_change: (-1i64) as i64 }),
    {
        Schedule { last_check_period: -1, last_change_period: -1 }
    }

    /// The period of an update that is due at a timestamp.
    pub fn due(&self, timestamp: i64, interval_ns: i64) -> (r: Option<i64>)
        requires
            interval_ns != 0,
            !(timestamp == i64::MIN && interval_ns == -1),
        ensures
            match r {
                Some(period) => period == period_of(timestamp, interval_ns) && period
                    > self@.last_check,
                None => period_of(timestamp, interval_ns) <= self@.last_check,
            },
    {
        let period: i64 = divide(timestamp, interval_ns);
        if period <= self.last_check_period {
            None
        } else {
            Some(period)
        }
    }

    /// Tells whether the volatility is to be checked in a period, and records
    /// that it is.
    pub fn change_due(&mut self, period: i64) -> (r: bool)
        ensures
            r == (change_period_of(period as int) > old(self)@.last_change),
            final(self)@.last_check == old(self)@.last_check,
            final(self)@.last_change == (if r {
                change_period_of(period as int)
            } else {
                old(self)@.last_change as int
            }),
    {
        let change_period: i64 = divide(period, 6);
        if change_period > self.last_change_period {
            self.last_change_period = change_period;
            true
        } else {
            false
        }
    }

    /// Records that the update of a period is done.
    pub fn done(&mut self, period: i64)
        ensures
            final(self)@ == (ScheduleModel { last_check: period, ..old(self)@ }),
    {
        self.last_check_period = period;
    }

    /// Starts over.
    pub fn reset(&mut self)
        ensures
            final(self)@ == (ScheduleModel {
                last_check: (-1i64) as i64,
                last_change: (-1i64) as i64,
            }),
    {
        self.last_check_period = -1;
        self.last_change_period = -1;
    }
}

} // verus!
