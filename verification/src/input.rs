use vstd::prelude::*;

verus! {

/// The movement axis from the two directional inputs: -1 moves up, +1
/// moves down, and opposing inputs (or none) leave the ship still.
pub open spec fn spec_keyboard_axis(up: bool, down: bool) -> i8 {
    if up && !down {
        -1i8
    } else if down && !up {
        1i8
    } else {
        0i8
    }
}

pub fn keyboard_axis(up: bool, down: bool) -> (axis: i8)
    ensures
        axis == spec_keyboard_axis(up, down),
{
    if up && !down {
        -1
    } else if down && !up {
        1
    } else {
        0
    }
}

/// Opposing inputs cancel, and swapping the two inputs reverses the axis.
pub proof fn opposing_inputs_cancel(up: bool, down: bool)
    ensures
        spec_keyboard_axis(true, true) == 0,
        spec_keyboard_axis(false, false) == 0,
        spec_keyboard_axis(up, down) == -spec_keyboard_axis(down, up),
        -1 <= spec_keyboard_axis(up, down) <= 1,
{
}

} // verus!
