//! The loops that run the strategy: what is done on each turn.

use vstd::prelude::*;

verus! {

/// Turns between two records, and between two notes that the market is awaited.
pub const RECORD_INTERVAL: u64 = 20;

/// Turns between two position snapshots.
pub const POSITION_RECORD_INTERVAL: u64 = 20;

/// Nanoseconds of data between two progress notes of a backtest.
pub const BACKTEST_LOG_INTERVAL: i64 = 3_600_000_000_000;

/// What is done on a turn of the trading loop.
#[derive(Debug, Clone, Copy, PartialEq, Eq, Structural)]
pub enum TurnStep {
    /// There is no market yet; this is noted where the flag is set.
    Wait { note: bool },
    /// The profit is tracked. A position snapshot is published, the status
    /// is logged, the strategy is updated and the dry run is logged where the
    /// flags are set.
    Act { snapshot: bool, log: bool, update: bool, log_dry_run: bool },
}

/// The trading loop: turns so far, and how many pass between two status logs.
#[derive(Debug)]
pub struct TradingLoop {
    iteration: u64,
    log_interval: u64,
}

/// What a trading loop holds.
pub struct TradingLoopModel {
    pub iteration: int,
    pub log_interval: int,
}

impl View for TradingLoop {
    type V = TradingLoopModel;

    closed spec fn view(&self) -> TradingLoopModel {
        TradingLoopModel {
            iteration: self.iteration as int,
            log_interval: self.log_interval as int,
        }
    }
}

/// What is done on a turn.
pub open spec fn turn_step(s: TradingLoopModel, has_market: bool, dry_run: bool) -> TurnStep {
    if !has_market {
        TurnStep::Wait { note: s.iteration % 20 == 0 }
    } else {
        TurnStep::Act {
            snapshot: s.iteration % 20 == 0,
            log: s.iteration % s.log_interval == 0,
            update: !dry_run,
            log_dry_run: dry_run && s.iteration % s.log_interval == 0,
        }
    }
}

impl TradingLoop {
    /// Logs the status every `log_interval_seconds`; a turn takes half a second.
    pub fn new(log_interval_seconds: u64) -> (r: Self)
        requires
            log_interval_seconds * 2 <= u64::MAX,
        ensures
            r@ == (TradingLoopModel { iteration: 0, log_interval: log_interval_seconds * 2 }),
    {
        TradingLoop { iteration: 0, log_interval: log_interval_seconds * 2 }
    }

    /// Begins a turn. Tells whether the state is recorded on it.
    pub fn begin_turn(&mut self) -> (r: bool)
        requires
            old(self)@.iteration < u64::MAX,
        ensures
            final(self)@ == (TradingLoopModel { iteration: old(self)@.iteration + 1, ..old(self)@ }),
            r == (final(self)@.iteration % 20 == 0),
    {
        self.iteration = self.iteration + 1;
        self.iteration % RECORD_INTERVAL == 0
    }

    /// Decides what is done on the turn.
    pub fn step(&self, has_market: bool, dry_run: bool) -> (r: TurnStep)
        requires
            has_market ==> self@.log_interval > 0,
        ensures
            r == turn_step(self@, has_market, dry_run),
    {
        if !has_market {
            return TurnStep::Wait { note: self.iteration % RECORD_INTERVAL == 0 };
        }
        let log: bool = self.iteration % self.log_interval == 0;
        TurnStep::Act {
            snapshot: self.iteration % POSITION_RECORD_INTERVAL == 0,
            log,
            update: !dry_run,
            log_dry_run: dry_run && log,
        }
    }

    /// Seconds that have passed, half a second a turn.
    pub fn seconds(&self) -> (r: u64)
        ensures
            r == self@.iteration / 2,
    {
        self.iteration / 2
    }
}

/// What a step of a backtest's clock gave.
#[derive(Debug, Clone, Copy, PartialEq, Eq, Structural)]
pub enum Elapsed {
    /// Time went on; this is the new one.
    Time(i64),
    EndOfData,
    /// A market feed or an order response.
    Other,
    Failed,
}

/// What a backtest does next.
#[derive(Debug, Clone, Copy, PartialEq, Eq, Structural)]
pub enum BacktestStep {
    /// The strategy is updated and the state recorded; progress is logged
    /// where the flag is set.
    Update { log: bool },
    /// Nothing; time goes on.
    Skip,
    /// The backtest is over.
    Stop,
}

/// The loop of a backtest: updates so far, and the time of the last progress note.
#[derive(Debug)]
pub struct BacktestLoop {
    iteration: u64,
    last_log_time: i64,
}

/// What a backtest loop holds.
pub struct BacktestLoopModel {
    pub iteration: int,
    pub last_log_time: i64,
}

impl View for BacktestLoop {
    type V = BacktestLoopModel;

    closed spec fn view(&self) -> BacktestLoopModel {
        BacktestLoopModel { iteration: self.iteration as int, last_log_time: self.last_log_time }
    }
}

/// Loop and step after the clock's answer.
pub open spec fn backtest_step(s: BacktestLoopModel, elapsed: Elapsed) -> (
    BacktestLoopModel,
    BacktestStep,
) {
    match elapsed {
        Elapsed::Time(now) => {
            let log = now - s.last_log_time >= 3_600_000_000_000;
            (
                BacktestLoopModel {
                    iteration: s.iteration + 1,
                    last_log_time: if log {
                        now
                    } else {
                        s.last_log_time
                    },
                },
                BacktestStep::Update { log },
            )
        },
        Elapsed::Other => (s, BacktestStep::Skip),
        Elapsed::EndOfData => (s, BacktestStep::Stop),
        Elapsed::Failed => (s, BacktestStep::Stop),
    }
}

impl BacktestLoop {
    pub fn new() -> (r: Self)
        ensures
            r@ == (BacktestLoopModel { iteration: 0, last_log_time: 0 }),
    {
        BacktestLoop { iteration: 0, last_log_time: 0 }
    }

    /// Takes the clock's answer.
    pub fn step(&mut self, elapsed: Elapsed) -> (r: BacktestStep)
        requires
            old(self)@.iteration < u64::MAX,
            elapsed matches Elapsed::Time(now) ==> i64::MIN <= now - old(self)@.last_log_time
                <= i64::MAX,
        ensures
            (final(self)@, r) == backtest_step(old(self)@, elapsed),
    {
        match elapsed {
            Elapsed::Time(now) => {
                self.iteration = self.iteration + 1;
                let log: bool = now - self.last_log_time >= BACKTEST_LOG_INTERVAL;
                if log {
                    self.last_log_time = now;
                }
                BacktestStep::Update { log }
            },
            Elapsed::Other => BacktestStep::Skip,
            Elapsed::EndOfData => BacktestStep::Stop,
            Elapsed::Failed => BacktestStep::Stop,
        }
    }

    /// Updates so far.
    pub fn iteration(&self) -> (r: u64)
        ensures
            r == self@.iteration,
    {
        self.iteration
    }
}

/// What live trading does on an answer of the feed.
#[derive(Debug, Clone, Copy, PartialEq, Eq, Structural)]
pub enum LiveStep {
    /// Nothing; the next answer is awaited.
    Wait,
    /// The strategy is updated.
    Update,
    /// Market and position are logged.
    DryRun,
    /// The number of orders is logged.
    OrderUpdate,
    /// Trading is over.
    Stop,
}

/// Decides what live trading does on a code of the feed: 1 is the end of
/// data, 2 a market feed and 3 an order response. There is none on an error.
pub fn live_step(code: Option<i64>, dry_run: bool) -> (r: LiveStep)
    ensures
        r == (match code {
            Some(1) => LiveStep::Stop,
            Some(2) => if dry_run {
                LiveStep::DryRun
            } else {
                LiveStep::Update
            },
            Some(3) => LiveStep::OrderUpdate,
            _ => LiveStep::Wait,
        }),
{
    match code {
        Some(result) => {
            if result == 1 {
                LiveStep::Stop
            } else if result == 2 {
                if dry_run {
                    LiveStep::DryRun
                } else {
                    LiveStep::Update
                }
            } else if result == 3 {
                LiveStep::OrderUpdate
            } else {
                LiveStep::Wait
            }
        },
        None => LiveStep::Wait,
    }
}

/// Two progress notes of a backtest are at least an hour of data apart, and
/// after every answer less than an hour has passed since the last one.
pub proof fn law_hourly_progress(s: BacktestLoopModel, now: i64)
    ensures
        ({
            let (after, step) = backtest_step(s, Elapsed::Time(now));
            &&& step == (BacktestStep::Update { log: true }) ==> now >= s.last_log_time
                + 3_600_000_000_000 && after.last_log_time == now
            &&& now - after.last_log_time < 3_600_000_000_000
        }),
{
}

/// A dry run never updates the strategy, so it submits no order.
pub proof fn law_dry_run_submits_nothing(s: TradingLoopModel, has_market: bool)
    ensures
        match turn_step(s, has_market, true) {
            TurnStep::Act { update, .. } => !update,
            TurnStep::Wait { .. } => true,
        },
{
}

} // verus!
