//! How long to wait before connecting again.

use vstd::prelude::*;

verus! {

/// Delays between attempts that grow by a factor up to a limit, and start
/// anew after a long time without an attempt. Times are in milliseconds.
#[derive(Debug)]
pub struct ExponentialBackoff {
    factor: u32,
    min_delay: u64,
    max_delay: u64,
    reset_interval: u64,
    last_attempt: u64,
    last_delay: Option<u64>,
}

/// What a backoff holds.
pub struct BackoffModel {
    pub factor: u32,
    pub min_delay: u64,
    pub max_delay: u64,
    pub reset_interval: u64,
    pub last_attempt: u64,
    pub last_delay: Option<u64>,
}

impl View for ExponentialBackoff {
    type V = BackoffModel;

    closed spec fn view(&self) -> BackoffModel {
        BackoffModel {
            factor: self.factor,
            min_delay: self.min_delay,
            max_delay: self.max_delay,
            reset_interval: self.reset_interval,
            last_attempt: self.last_attempt,
            last_delay: self.last_delay,
        }
    }
}

/// The delay that follows another: `factor` times as long, but no longer than
/// `max_delay`.
pub open spec fn longer_delay(b: BackoffModel, delay: u64) -> u64 {
    if delay * b.factor <= b.max_delay {
        (delay * b.factor) as u64
    } else {
        b.max_delay
    }
}

/// The delay after an attempt that ended at `now`.
pub open spec fn delay_at(b: BackoffModel, now: u64) -> u64 {
    match b.last_delay {
        Some(delay) if now - b.last_attempt <= b.reset_interval => longer_delay(b, delay),
        _ => b.min_delay,
    }
}

/// The backoff after an attempt that ended at `now`.
pub open spec fn after_attempt(b: BackoffModel, now: u64) -> BackoffModel {
    BackoffModel { last_attempt: now, last_delay: Some(delay_at(b, now)), ..b }
}

impl Default for ExponentialBackoff {
    /// 100 ms, doubled up to 60 s, and 100 ms again after more than 5 minutes.
    fn default() -> (r: Self)
        ensures
            r@ == (BackoffModel {
                factor: 2,
                min_delay: 100,
                max_delay: 60_000,
                reset_interval: 300_000,
                last_attempt: 0,
                last_delay: None,
            }),
    {
        ExponentialBackoff {
            factor: 2,
            min_delay: 100,
            max_delay: 60_000,
            reset_interval: 300_000,
            last_attempt: 0,
            last_delay: None,
        }
    }
}

impl ExponentialBackoff {
    /// How long to wait after an attempt that ended at `now`.
    pub fn backoff(&mut self, now: u64) -> (r: u64)
        ensures
            r == delay_at(old(self)@, now),
            final(self)@ == after_attempt(old(self)@, now),
    {
        let stable: bool = now > self.last_attempt && now - self.last_attempt
            > self.reset_interval;
        let delay: u64 = match self.last_delay {
            Some(delay) if !stable => {
                assert(delay * self.factor <= u64::MAX as int * u32::MAX as int) by (nonlinear_arith)
                    requires
                        delay <= u64::MAX,
                        self.factor <= u32::MAX,
                ;
                assert(0 <= delay * self.factor) by (nonlinear_arith)
                    requires
                        0 <= delay,
                        0 <= self.factor,
                ;
                let longer: u128 = delay as u128 * self.factor as u128;
                if longer <= self.max_delay as u128 {
                    longer as u64
                } else {
                    self.max_delay
                }
            },
            _ => self.min_delay,
        };
        self.last_attempt = now;
        self.last_delay = Some(delay);
        delay
    }
}

/// The backoff after attempts that ended at these times.
pub open spec fn after_attempts(b: BackoffModel, times: Seq<u64>) -> BackoffModel
    decreases times.len(),
{
    if times.len() == 0 {
        b
    } else {
        after_attempt(after_attempts(b, times.drop_last()), times.last())
    }
}

/// `min_delay`, multiplied by `factor` so many times, but no longer than `max_delay`.
pub open spec fn grown(b: BackoffModel, steps: nat) -> u64
    decreases steps,
{
    if steps == 0 {
        b.min_delay
    } else {
        longer_delay(b, grown(b, (steps - 1) as nat))
    }
}

/// No attempt came later than the reset interval after the one before it.
pub open spec fn in_quick_succession(b: BackoffModel, times: Seq<u64>) -> bool {
    forall|i: int, j: int|
        0 <= i < times.len() && j == i + 1 && j < times.len() ==> #[trigger] times[j]
            - #[trigger] times[i] <= b.reset_interval
}

/// While attempts fail in quick succession, the delay after each is the one
/// before it multiplied by the factor, up to the longest, from the shortest on.
pub proof fn law_delays_grow(b: BackoffModel, times: Seq<u64>)
    requires
        b.last_delay is None,
        times.len() > 0,
        in_quick_succession(b, times),
    ensures
        ({
            let after = after_attempts(b, times);
            &&& after.last_delay == Some(grown(b, (times.len() - 1) as nat))
            &&& after.last_attempt == times.last()
            &&& after == (BackoffModel {
                last_delay: after.last_delay,
                last_attempt: after.last_attempt,
                ..b
            })
        }),
    decreases times.len(),
{
    let before = times.drop_last();
    if before.len() > 0 {
        assert forall|i: int, j: int|
            0 <= i < before.len() && j == i + 1 && j < before.len() implies #[trigger] before[j]
            - #[trigger] before[i] <= b.reset_interval by {
            assert(times[j] - times[i] <= b.reset_interval);
        }
        law_delays_grow(b, before);
        assert(times[times.len() - 1] - times[times.len() - 2] <= b.reset_interval);
    } else {
        assert(after_attempts(b, before) == b);
    }
}

/// After a connection that stood for longer than the reset interval the delay
/// is the shortest again.
pub proof fn law_delay_starts_anew(b: BackoffModel, now: u64)
    requires
        now - b.last_attempt > b.reset_interval,
    ensures
        delay_at(b, now) == b.min_delay,
{
}

/// The first delay is the shortest. The one after it, within the reset
/// interval, is the last one multiplied by the factor, or the longest where
/// that would be longer. Nothing else of the backoff changes.
pub proof fn law_next_delay(b: BackoffModel, now: u64)
    ensures
        b.last_delay is None ==> delay_at(b, now) == b.min_delay,
        b.last_delay is Some && now - b.last_attempt <= b.reset_interval ==> {
            let product = b.last_delay->0 * b.factor;
            &&& delay_at(b, now) <= b.max_delay
            &&& product <= b.max_delay ==> delay_at(b, now) == product
            &&& product > b.max_delay ==> delay_at(b, now) == b.max_delay
        },
        ({
            let after = after_attempt(b, now);
            &&& after.last_delay == Some(delay_at(b, now))
            &&& after.last_attempt == now
            &&& after.factor == b.factor
            &&& after.min_delay == b.min_delay
            &&& after.max_delay == b.max_delay
            &&& after.reset_interval == b.reset_interval
        }),
{
    if let Some(delay) = b.last_delay {
        assert(0 <= delay * b.factor) by (nonlinear_arith)
            requires
                0 <= delay,
                0 <= b.factor,
        ;
    }
}

} // verus!
