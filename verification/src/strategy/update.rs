//! An update of the strategy: whether it is due, whether the volatility is
//! checked with it, and what is done about orders.

use vstd::prelude::*;

use crate::factors::stop_loss;
use crate::factors::stop_loss::{StopLossMonitor, StopLossStatus};
use crate::strategy::schedule;
use crate::strategy::schedule::{Schedule, ScheduleModel};

verus! {

/// What is done about orders.
#[derive(Debug, Clone, Copy, PartialEq, Eq, Structural)]
pub enum OrderMode {
    /// The grid is brought up to date.
    Grid,
    /// All orders are cancelled and the position is closed.
    StopLoss,
}

/// An update that is due.
#[derive(Debug, Clone, Copy, PartialEq, Eq, Structural)]
pub struct Due {
    pub period: i64,
    /// The volatility is checked.
    pub volatility: bool,
}

/// When updates are done, and whether a stop loss has been triggered.
pub struct Updates {
    schedule: Schedule,
    stop_loss: StopLossMonitor,
}

/// The update that is due at a timestamp. There is none without a market.
pub open spec fn due_at(
    s: ScheduleModel,
    timestamp: i64,
    interval_ns: i64,
    has_market: bool,
) -> Option<Due> {
    let period = schedule::period_of(timestamp, interval_ns);
    if period > s.last_check && has_market {
        Some(
            Due {
                period: period as i64,
                volatility: schedule::change_period_of(period) > s.last_change,
            },
        )
    } else {
        None
    }
}

/// The schedule after an update has begun.
pub open spec fn begun(s: ScheduleModel, due: Option<Due>) -> ScheduleModel {
    match due {
        Some(due) if due.volatility => ScheduleModel {
            last_change: schedule::change_period_of(due.period as int) as i64,
            ..s
        },
        _ => s,
    }
}

impl Updates {
    /// Periods of the last actions.
    pub closed spec fn schedule(&self) -> ScheduleModel {
        self.schedule@
    }

    /// The stop loss status.
    pub closed spec fn stop_loss(&self) -> StopLossStatus {
        self.stop_loss@
    }

    pub fn new() -> (r: Self)
        ensures
            r.schedule() == (ScheduleModel {
                last_check: (-1i64) as i64,
                last_change: (-1i64) as i64,
            }),
            r.stop_loss() == StopLossStatus::Normal,
    {
        Updates { schedule: Schedule::new(), stop_loss: StopLossMonitor::new() }
    }

    /// Begins the update that is due at a timestamp, where there is one.
    pub fn begin(&mut self, timestamp: i64, interval_ns: i64, has_market: bool) -> (r: Option<Due>)
        requires
            interval_ns != 0,
            !(timestamp == i64::MIN && interval_ns == -1),
        ensures
            r == due_at(old(self).schedule(), timestamp, interval_ns, has_market),
            final(self).schedule() == begun(old(self).schedule(), r),
            final(self).stop_loss() == old(self).stop_loss(),
    {
        match self.schedule.due(timestamp, interval_ns) {
            None => None,
            Some(period) => {
                if !has_market {
                    return None;
                }
                let volatility: bool = self.schedule.change_due(period);
                Some(Due { period, volatility })
            },
        }
    }

    /// Takes the results of a volatility check.
    pub fn check(&mut self, volatility_exceeded: bool, change_exceeded: bool)
        ensures
            final(self).schedule() == old(self).schedule(),
            final(self).stop_loss() == stop_loss::checked(volatility_exceeded, change_exceeded),
    {
        self.stop_loss.check(volatility_exceeded, change_exceeded);
    }

    /// Tells what is done about orders, and records that the update of the
    /// period is done with it.
    pub fn finish(&mut self, period: i64) -> (r: OrderMode)
        ensures
            r == (if old(self).stop_loss() == StopLossStatus::Normal {
                OrderMode::Grid
            } else {
                OrderMode::StopLoss
            }),
            final(self).schedule() == (ScheduleModel { last_check: period, ..old(self).schedule() }),
            final(self).stop_loss() == old(self).stop_loss(),
    {
        self.schedule.done(period);
        match self.stop_loss.status() {
            StopLossStatus::Normal => OrderMode::Grid,
            _ => OrderMode::StopLoss,
        }
    }

    /// Starts over.
    pub fn reset(&mut self)
        ensures
            final(self).schedule() == (ScheduleModel {
                last_check: (-1i64) as i64,
                last_change: (-1i64) as i64,
            }),
            final(self).stop_loss() == StopLossStatus::Normal,
    {
        self.schedule.reset();
        self.stop_loss.reset_status();
    }
}

/// Once the update of a timestamp is done, no update is due at any timestamp
/// of the same period.
pub proof fn law_update_is_done_once(
    s: ScheduleModel,
    first: i64,
    next: i64,
    interval_ns: i64,
)
    requires
        interval_ns != 0,
        due_at(s, first, interval_ns, true) is Some,
        schedule::period_of(first, interval_ns) == schedule::period_of(next, interval_ns),
        i64::MIN <= schedule::period_of(first, interval_ns) <= i64::MAX,
    ensures
        ({
            let due = due_at(s, first, interval_ns, true);
            let after = ScheduleModel { last_check: due->0.period, ..begun(s, due) };
            forall|has_market: bool| #[trigger]
                due_at(after, next, interval_ns, has_market) is None
        }),
{
}

} // verus!
