//! HC-SR04 ranging: timing the echo pulse and turning its width into a
//! distance.
use vstd::prelude::*;

verus! {

/// Longest wait for the echo to rise, and longest pulse measured, in µs.
pub const ECHO_TIMEOUT_US: u64 = 30_000;

/// Time the trigger line is held low before the pulse, in µs.
pub const TRIGGER_SETTLE_US: u64 = 2;

/// Width of the trigger pulse, in µs.
pub const TRIGGER_PULSE_US: u64 = 10;

/// Pause between two measurements of the ranging task, in milliseconds.
pub const MEASURE_PERIOD_MS: u64 = 100;

/// Which edge of the echo line the measurement waits for.
#[derive(Clone, Copy, Debug, PartialEq, Eq)]
pub enum EchoPhase {
    /// Waiting for the echo to go high after the trigger pulse.
    AwaitRise,
    /// Timing the high echo pulse.
    AwaitFall,
}

/// What the measurement does after one look at the echo line.
#[derive(Clone, Copy, Debug, PartialEq, Eq)]
pub enum EchoStep {
    /// Keep polling in the same phase.
    Keep,
    /// The echo went high: start timing the pulse now.
    Rose,
    /// The echo never went high in time: there is no measurement.
    NoEcho,
    /// The pulse is over (or timed out): its width is the time since it rose.
    Fell,
}

/// One poll of the echo line, given its level and the time spent in the
/// current phase. Waiting for the rise gives up once more than the timeout
/// has passed; the pulse is cut off once it has lasted more than the timeout.
pub fn echo_step(phase: EchoPhase, echo_high: bool, elapsed_us: u64) -> (r: EchoStep)
    ensures
        r == match phase {
            EchoPhase::AwaitRise => if echo_high {
                EchoStep::Rose
            } else if elapsed_us > ECHO_TIMEOUT_US {
                EchoStep::NoEcho
            } else {
                EchoStep::Keep
            },
            EchoPhase::AwaitFall => if !echo_high || elapsed_us > ECHO_TIMEOUT_US {
                EchoStep::Fell
            } else {
                EchoStep::Keep
            },
        },
        r == EchoStep::Keep ==> elapsed_us <= ECHO_TIMEOUT_US,
{
    match phase {
        EchoPhase::AwaitRise => {
            if echo_high {
                EchoStep::Rose
            } else if elapsed_us > ECHO_TIMEOUT_US {
                EchoStep::NoEcho
            } else {
                EchoStep::Keep
            }
        },
        EchoPhase::AwaitFall => {
            if !echo_high {
                EchoStep::Fell
            } else if elapsed_us > ECHO_TIMEOUT_US {
                EchoStep::Fell
            } else {
                EchoStep::Keep
            }
        },
    }
}

/// Distance to the object in whole centimetres from the echo pulse width in
/// µs: sound travels 343 m/s and the pulse covers the way there and back, so
/// `width * 343 / 20000`, rounded down.
pub fn distance_cm(pulse_width_us: u64) -> (r: u64)
    requires
        pulse_width_us * 343 <= u64::MAX,
    ensures
        r == pulse_width_us * 343 / 20000,
{
    pulse_width_us * 343 / 20000
}

/// The distance as the ranging task hands it on, cut to 32 bits.
pub fn distance_cm_u32(pulse_width_us: u64) -> (r: u32)
    requires
        pulse_width_us * 343 <= u64::MAX,
    ensures
        r == (pulse_width_us * 343 / 20000) as u32,
{
    distance_cm(pulse_width_us) as u32
}

/// A longer echo never gives a nearer object.
pub proof fn distance_is_monotonic(shorter_us: u64, longer_us: u64)
    requires
        shorter_us <= longer_us,
        longer_us * 343 <= u64::MAX,
    ensures
        shorter_us * 343 / 20000 <= longer_us * 343 / 20000,
{
    let a = shorter_us as int;
    let b = longer_us as int;
    assert(a * 343 <= b * 343) by (nonlinear_arith)
        requires
            a <= b,
    ;
    assert((a * 343) / 20000 <= (b * 343) / 20000) by (nonlinear_arith)
        requires
            0 <= a * 343 <= b * 343,
    ;
}

} // verus!
