//! Turns, periods and updates of the strategy.

use vstd::prelude::*;

use crate::factors::stop_loss;
use crate::factors::stop_loss::StopLossStatus;
use crate::strategy::run;
use crate::strategy::run::{
    BacktestLoopModel, BacktestStep, Elapsed, TradingLoopModel, TurnStep,
};
use crate::strategy::schedule;
use crate::strategy::schedule::ScheduleModel;
use crate::strategy::update;
use crate::strategy::update::Due;
use crate::strategy::warmup;
use crate::strategy::warmup::{ReplayModel, ReplayStep};

verus! {

/// Without a market nothing but a note is made, on every twentieth turn. With
/// one the position is published on every twentieth turn and the status logged
/// in its own interval; the strategy is updated on every turn, except in a dry
/// run, which is logged with the status instead.
pub proof fn law_what_a_turn_does(s: TradingLoopModel, dry_run: bool)
    ensures
        run::turn_step(s, false, dry_run) == (TurnStep::Wait { note: s.iteration % 20 == 0 }),
        match run::turn_step(s, true, dry_run) {
            TurnStep::Wait { .. } => false,
            TurnStep::Act { snapshot, log, update, log_dry_run } => {
                &&& snapshot == (s.iteration % 20 == 0)
                &&& log == (s.iteration % s.log_interval == 0)
                &&& update == !dry_run
                &&& log_dry_run == (dry_run && log)
            },
        },
{
}

/// A backtest goes on with every step of time, which it counts, and stops at
/// the end of the data or on a failure. Other answers change nothing.
pub proof fn law_what_a_backtest_does(s: BacktestLoopModel, now: i64)
    ensures
        ({
            let (after, step) = run::backtest_step(s, Elapsed::Time(now));
            &&& after.iteration == s.iteration + 1
            &&& step == (BacktestStep::Update {
                log: now >= s.last_log_time + 3_600_000_000_000,
            })
            &&& after.last_log_time == (if now >= s.last_log_time + 3_600_000_000_000 {
                now
            } else {
                s.last_log_time
            })
        }),
        run::backtest_step(s, Elapsed::Other) == (s, BacktestStep::Skip),
        run::backtest_step(s, Elapsed::EndOfData) == (s, BacktestStep::Stop),
        run::backtest_step(s, Elapsed::Failed) == (s, BacktestStep::Stop),
{
}

/// The size of a number.
pub open spec fn size(a: int) -> int {
    if a < 0 {
        -a
    } else {
        a
    }
}

/// A quotient is as large as it can be without its product with the divisor
/// going beyond the dividend, and its sign is that of both together.
pub proof fn law_quotient_towards_zero(a: int, b: int)
    requires
        b != 0,
    ensures
        ({
            let q = schedule::quotient(a, b);
            &&& size(q) * size(b) <= size(a) < (size(q) + 1) * size(b)
            &&& (a < 0) == (b < 0) ==> q >= 0
            &&& (a < 0) != (b < 0) ==> q <= 0
        }),
{
    let x = size(a);
    let y = size(b);
    let p = x / y;
    assert(0 <= p && p * y <= x < (p + 1) * y) by (nonlinear_arith)
        requires
            p == x / y,
            x >= 0,
            y >= 1,
    ;
    assert(size(schedule::quotient(a, b)) == p);
}

/// The period of a timestamp begins at or before it and ends after it.
pub proof fn law_timestamp_is_in_its_period(timestamp: i64, interval_ns: i64)
    requires
        timestamp >= 0,
        interval_ns > 0,
    ensures
        ({
            let period = schedule::period_of(timestamp, interval_ns);
            &&& period >= 0
            &&& period * interval_ns <= timestamp < (period + 1) * interval_ns
        }),
{
    law_quotient_towards_zero(timestamp as int, interval_ns as int);
}

/// Six update periods in a row make a volatility period.
pub proof fn law_six_periods_make_one(period: int)
    requires
        period >= 0,
    ensures
        ({
            let change = schedule::change_period_of(period);
            6 * change <= period <= 6 * change + 5
        }),
{
}

/// An update is due exactly where there is a market and its period is later
/// than that of the last one; the volatility is checked with it exactly where
/// its volatility period is later too.
pub proof fn law_when_an_update_is_due(
    s: ScheduleModel,
    timestamp: i64,
    interval_ns: i64,
    has_market: bool,
)
    requires
        i64::MIN <= schedule::period_of(timestamp, interval_ns) <= i64::MAX,
    ensures
        ({
            let period = schedule::period_of(timestamp, interval_ns);
            let due = update::due_at(s, timestamp, interval_ns, has_market);
            &&& due is Some == (has_market && period > s.last_check)
            &&& due is Some ==> due->0.period == period
            &&& due is Some ==> due->0.volatility == (schedule::change_period_of(period)
                > s.last_change)
        }),
{
}

/// Beginning an update records its volatility period where the volatility is
/// checked, and nothing else.
pub proof fn law_beginning_an_update(s: ScheduleModel, due: Due)
    requires
        i64::MIN <= schedule::change_period_of(due.period as int) <= i64::MAX,
    ensures
        update::begun(s, None) == s,
        update::begun(s, Some(due)).last_check == s.last_check,
        due.volatility ==> update::begun(s, Some(due)).last_change
            == schedule::change_period_of(due.period as int),
        !due.volatility ==> update::begun(s, Some(due)).last_change == s.last_change,
{
}

/// The volatility is checked once in a volatility period: a later update of the
/// same one comes without a check.
pub proof fn law_volatility_is_checked_once(
    s: ScheduleModel,
    first: i64,
    next: i64,
    interval_ns: i64,
)
    requires
        i64::MIN <= schedule::period_of(first, interval_ns) <= i64::MAX,
        i64::MIN <= schedule::change_period_of(schedule::period_of(first, interval_ns))
            <= i64::MAX,
        schedule::change_period_of(schedule::period_of(first, interval_ns))
            == schedule::change_period_of(schedule::period_of(next, interval_ns)),
        update::due_at(s, first, interval_ns, true) is Some,
    ensures
        ({
            let due = update::due_at(s, first, interval_ns, true);
            let after = ScheduleModel {
                last_check: due->0.period,
                ..update::begun(s, due)
            };
            update::due_at(after, next, interval_ns, true) matches Some(later)
                ==> !later.volatility
        }),
{
}

/// A stop loss is triggered by either score and by nothing else.
pub proof fn law_either_score_triggers(volatility_exceeded: bool, change_exceeded: bool)
    ensures
        (stop_loss::checked(volatility_exceeded, change_exceeded) == StopLossStatus::Normal) == (
        !volatility_exceeded && !change_exceeded),
        (stop_loss::checked(volatility_exceeded, change_exceeded) == StopLossStatus::Triggered)
            == (volatility_exceeded || change_exceeded),
        StopLossStatus::Normal.code() == 0,
        StopLossStatus::Triggered.code() == 1,
        StopLossStatus::Cooldown.code() == 2,
{
}

/// A replay keeps to the same rules: one update in a period, counted, with the
/// volatility once in six periods.
pub proof fn law_replay_keeps_the_rules(s: ReplayModel, period: int)
    requires
        i64::MIN <= period <= i64::MAX,
        i64::MIN <= schedule::change_period_of(period) <= i64::MAX,
    ensures
        ({
            let (after, step) = warmup::replayed(s, period);
            let change = schedule::change_period_of(period);
            if period > s.last_update {
                &&& step == (ReplayStep::Update { volatility: change > s.last_change })
                &&& after.last_update == period
                &&& after.last_change == (if change > s.last_change {
                    change
                } else {
                    s.last_change as int
                })
                &&& after.processed == s.processed + 1
            } else {
                step == ReplayStep::Skip && after == s
            }
        }),
{
}

} // verus!
