//! Pacing of the sensor tasks and the answer to a panic.
use vstd::prelude::*;

verus! {

/// Warm-up of the DHT11 after power-on, and time between two of its
/// readings, in milliseconds.
pub const DHT_PERIOD_MS: u64 = 2000;

/// Time between two photoresistor readings, in milliseconds.
pub const LIGHT_PERIOD_MS: u64 = 1000;

/// Pause at the start of each round of the polling loop, in milliseconds.
pub const ROUND_PAUSE_MS: u64 = 1000;

/// Pause after the ranging step of each round of the polling loop, in
/// milliseconds.
pub const ROUND_SETTLE_MS: u64 = 60;

/// What the firmware does once it has panicked.
#[derive(Clone, Copy, Debug, PartialEq, Eq)]
pub enum PanicAction {
    /// Stop all work and stay put until the chip is reset.
    Halt,
}

/// The panic handler's answer: whatever went wrong, the firmware halts and
/// never resumes.
pub fn panic() -> (r: PanicAction)
    ensures
        r == PanicAction::Halt,
{
    PanicAction::Halt
}

} // verus!
