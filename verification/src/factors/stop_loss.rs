//! Stop loss status.

use vstd::prelude::*;

verus! {

/// Stop loss status.
#[derive(Debug, Clone, Copy, PartialEq, Eq, Structural)]
pub enum StopLossStatus {
    /// Normal operation, no stop loss triggered.
    Normal,
    /// Stop loss triggered due to volatility or price change.
    Triggered,
    /// Cooldown period after stop loss.
    Cooldown,
}

impl StopLossStatus {
    /// The number that stands for a status.
    pub open spec fn code(self) -> u8 {
        match self {
            StopLossStatus::Normal => 0,
            StopLossStatus::Triggered => 1,
            StopLossStatus::Cooldown => 2,
        }
    }

    /// The number that stands for a status.
    pub fn as_u8(&self) -> (r: u8)
        ensures
            r == self.code(),
    {
        match self {
            StopLossStatus::Normal => 0,
            StopLossStatus::Triggered => 1,
            StopLossStatus::Cooldown => 2,
        }
    }
}

/// The status after a check of the two scores.
pub open spec fn checked(volatility_exceeded: bool, change_exceeded: bool) -> StopLossStatus {
    if volatility_exceeded || change_exceeded {
        StopLossStatus::Triggered
    } else {
        StopLossStatus::Normal
    }
}

/// Keeps the stop loss status by whether the scores of volatility and price
/// change are above their thresholds.
#[derive(Debug)]
pub struct StopLossMonitor {
    status: StopLossStatus,
}

impl View for StopLossMonitor {
    type V = StopLossStatus;

    closed spec fn view(&self) -> StopLossStatus {
        self.status
    }
}

impl StopLossMonitor {
    pub fn new() -> (r: Self)
        ensures
            r@ == StopLossStatus::Normal,
    {
        StopLossMonitor { status: StopLossStatus::Normal }
    }

    /// Takes whether each score is above its threshold and returns the status.
    pub fn check(&mut self, volatility_exceeded: bool, change_exceeded: bool) -> (r: StopLossStatus)
        ensures
            final(self)@ == r,
            r == checked(volatility_exceeded, change_exceeded),
    {
        self.status = if volatility_exceeded || change_exceeded {
            StopLossStatus::Triggered
        } else {
            StopLossStatus::Normal
        };
        self.status
    }

    /// Returns the current stop loss status.
    pub fn status(&self) -> (r: StopLossStatus)
        ensures
            r == self@,
    {
        self.status
    }

    /// Resets the status to normal.
    pub fn reset_status(&mut self)
        ensures
            final(self)@ == StopLossStatus::Normal,
    {
        self.status = StopLossStatus::Normal;
    }

    /// Returns true if stop loss is triggered.
    pub fn is_triggered(&self) -> (r: bool)
        ensures
            r == (self@ != StopLossStatus::Normal),
    {
        match self.status {
            StopLossStatus::Normal => false,
            _ => true,
        }
    }
}

} // verus!
