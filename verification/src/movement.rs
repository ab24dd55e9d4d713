//! The direction the player steers with the keyboard.
use vstd::prelude::*;

verus! {

/// One axis of the steering direction: +1 for the positive key, -1 for the
/// negative key, so that the two cancel when both are held.
pub open spec fn key_axis(positive: bool, negative: bool) -> int {
    (if positive { 1int } else { 0int }) - (if negative { 1int } else { 0int })
}

/// The unnormalised steering direction from the four movement keys
/// (W = up, A = left, S = down, D = right): `(x, y)` with `x` growing to the
/// right and `y` growing upwards.
pub fn key_direction(up: bool, left: bool, down: bool, right: bool) -> (d: (i8, i8))
    ensures
        d.0 == key_axis(right, left),
        d.1 == key_axis(up, down),
{
    let mut x: i8 = 0;
    let mut y: i8 = 0;
    if up {
        y = y + 1;
    }
    if left {
        x = x - 1;
    }
    if down {
        y = y - 1;
    }
    if right {
        x = x + 1;
    }
    (x, y)
}

} // verus!
