//! The proximity alarm.
use vstd::prelude::*;

verus! {

/// Objects nearer than this, in centimetres, sound the buzzer.
pub const ALARM_RANGE_CM: u64 = 30;

/// The buzzer sounds exactly when the object is nearer than 30 cm.
pub fn buzzer_on(distance_cm: u64) -> (r: bool)
    ensures
        r == (distance_cm < ALARM_RANGE_CM),
{
    distance_cm < ALARM_RANGE_CM
}

/// The alarm sounds exactly when the echo pulse is shorter than 1750 µs: the
/// buzzer rule applied to the distance worked out from the pulse width.
pub proof fn alarm_iff_short_echo(pulse_width_us: u64)
    requires
        pulse_width_us * 343 <= u64::MAX,
    ensures
        (pulse_width_us * 343 / 20000 < ALARM_RANGE_CM) <==> pulse_width_us < 1750,
{
    let p = pulse_width_us as int;
    if p < 1750 {
        assert(p * 343 < 600000) by (nonlinear_arith)
            requires
                0 <= p < 1750,
        ;
    } else {
        assert(p * 343 >= 600000) by (nonlinear_arith)
            requires
                p >= 1750,
        ;
    }
}

/// The same holds of the 32-bit distance that the ranging task hands to the
/// buzzer task, as long as the distance fits in 32 bits (a pulse of less than
/// about 2.5 * 10^11 µs).
pub proof fn alarm_iff_short_echo_u32(pulse_width_us: u64)
    requires
        pulse_width_us * 343 <= u64::MAX,
        pulse_width_us * 343 / 20000 <= u32::MAX,
    ensures
        (((pulse_width_us * 343 / 20000) as u32) < ALARM_RANGE_CM) <==> pulse_width_us < 1750,
{
    alarm_iff_short_echo(pulse_width_us);
}

} // verus!
