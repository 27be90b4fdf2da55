//! The player's controls: steering left and right, and firing a bolt.
use vstd::prelude::*;

verus! {

/// Horizontal direction chosen by the arrow keys: `-1` for left, `1` for
/// right, `0` when neither or both are held.
pub fn steer(left_pressed: bool, right_pressed: bool) -> (direction: i32)
    ensures
        direction == (if right_pressed { 1int } else { 0int }) - (if left_pressed { 1int } else { 0int }),
        -1 <= direction <= 1,
        left_pressed == right_pressed ==> direction == 0,
{
    let mut direction: i32 = 0;
    if left_pressed {
        direction = direction - 1;
    }
    if right_pressed {
        direction = direction + 1;
    }
    direction
}

/// Whether a new bolt is fired: only when no bolt is in flight and the fire
/// key was just pressed.
pub fn fires_bolt(bolt_exists: bool, fire_just_pressed: bool) -> (fire: bool)
    ensures
        fire == (!bolt_exists && fire_just_pressed),
{
    !bolt_exists && fire_just_pressed
}

} // verus!
