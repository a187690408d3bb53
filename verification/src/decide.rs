//! The per-cycle actuation decision: one of lowering, raising, or
//! sleeping, chosen from the current time and the two solar instants.

use vstd::prelude::*;

verus! {

/// How long the device sleeps when neither solar event is near.
pub const IDLE_SLEEP_SECONDS: u64 = 7200;

/// Default half-width of the decision window around a solar event.
pub const DEFAULT_WINDOW_SECONDS: i64 = 3600;

/// A single, unambiguous point in time, as seconds since the Unix
/// epoch, obtained by resolving a local wall-clock value.
#[derive(PartialEq, Eq, Structural, Clone, Copy, Debug)]
pub struct LocalInstant {
    pub epoch_seconds: i64,
}

/// The one action taken in a wake cycle.
#[derive(PartialEq, Eq, Structural, Clone, Copy, Debug)]
pub enum ActionOutcome {
    /// Drive the actuator down: sunset is near.
    Lower,
    /// Drive the actuator up: sunrise is near.
    Raise,
    /// Neither event is near: suspend for the given number of seconds.
    IdleSleep(u64),
}

/// `now` lies within `window` seconds of `center`, both ends included.
pub open spec fn in_window(now: int, center: int, window: int) -> bool {
    center - window <= now <= center + window
}

/// The decision policy: the sunset window wins, then the sunrise
/// window, and otherwise the cycle idles for the fixed sleep duration.
pub open spec fn spec_decide(now: int, sunrise: int, sunset: int, window: int) -> ActionOutcome {
    if in_window(now, sunset, window) {
        ActionOutcome::Lower
    } else if in_window(now, sunrise, window) {
        ActionOutcome::Raise
    } else {
        ActionOutcome::IdleSleep(IDLE_SLEEP_SECONDS)
    }
}

/// Selects exactly one action for this cycle from the current instant,
/// the two solar instants and the window half-width, by the policy of
/// [`spec_decide`]: within the sunset window lower, else within the
/// sunrise window raise, else idle.  Window edges count as inside.
pub fn decide(now: LocalInstant, sunrise: LocalInstant, sunset: LocalInstant, window_seconds: i64)
    -> (r: ActionOutcome)
    requires
        0 <= window_seconds <= 0x4000_0000,
        -0x2000_0000_0000_0000 <= now.epoch_seconds <= 0x2000_0000_0000_0000,
        -0x2000_0000_0000_0000 <= sunrise.epoch_seconds <= 0x2000_0000_0000_0000,
        -0x2000_0000_0000_0000 <= sunset.epoch_seconds <= 0x2000_0000_0000_0000,
    ensures
        r == spec_decide(
            now.epoch_seconds as int,
            sunrise.epoch_seconds as int,
            sunset.epoch_seconds as int,
            window_seconds as int,
        ),
{
    let t = now.epoch_seconds;
    if sunset.epoch_seconds - window_seconds <= t && t <= sunset.epoch_seconds + window_seconds {
        ActionOutcome::Lower
    } else if sunrise.epoch_seconds - window_seconds <= t && t <= sunrise.epoch_seconds
        + window_seconds {
        ActionOutcome::Raise
    } else {
        ActionOutcome::IdleSleep(IDLE_SLEEP_SECONDS)
    }
}

/// The decision is a pure function of its three time inputs and the
/// window: any two results that both satisfy `decide`'s contract on
/// identical inputs are identical.
pub proof fn lemma_decide_deterministic(
    now: int,
    sunrise: int,
    sunset: int,
    window: int,
    r1: ActionOutcome,
    r2: ActionOutcome,
)
    requires
        r1 == spec_decide(now, sunrise, sunset, window),
        r2 == spec_decide(now, sunrise, sunset, window),
    ensures
        r1 == r2,
{
}

} // verus!
