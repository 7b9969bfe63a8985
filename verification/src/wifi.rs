//! Reading of the radio's signal strength.

use vstd::prelude::*;

verus! {

/// The number of bars, 0 to 5, that stand for a received signal strength
/// in dBm: five from -50 up, one less for every 10 dB below, none under -90.
pub open spec fn bars(strength: int) -> int {
    if strength >= -50 {
        5
    } else if strength >= -60 {
        4
    } else if strength >= -70 {
        3
    } else if strength >= -80 {
        2
    } else if strength >= -90 {
        1
    } else {
        0
    }
}

/// The signal strength as it is shown: the reading itself, or its number
/// of bars.
pub fn get_signal_strength(strength: i32, as_bars: bool) -> (shown: i32)
    ensures
        shown == if as_bars {
            bars(strength as int)
        } else {
            strength as int
        },
{
    if as_bars {
        if strength >= -50 {
            5
        } else if strength >= -60 {
            4
        } else if strength >= -70 {
            3
        } else if strength >= -80 {
            2
        } else if strength >= -90 {
            1
        } else {
            0
        }
    } else {
        strength
    }
}

} // verus!
