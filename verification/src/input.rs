//! What the keys a player holds down ask for.

use crate::events::SpawnBomb;
use vstd::prelude::*;

verus! {

/// A direction on the ground, not yet scaled to unit length: each part is
/// -1, 0 or 1. Positive `x` points right, positive `z` points down the
/// screen.
#[derive(Clone, Copy, Debug, PartialEq, Eq, Structural)]
pub struct Heading {
    pub x: i8,
    pub z: i8,
}

/// One axis of a heading: the key that pushes forward along it counts 1,
/// the key that pushes back counts -1, and both together cancel.
pub open spec fn axis(forward: bool, back: bool) -> int {
    (if forward { 1int } else { 0int }) - (if back { 1int } else { 0int })
}

/// The heading that four arrow keys ask for: right and left along `x`, down
/// and up along `z`. Keys that cancel on both axes ask for none.
pub open spec fn heading_of(right: bool, left: bool, up: bool, down: bool) -> Option<Heading> {
    if axis(right, left) == 0 && axis(down, up) == 0 {
        None
    } else {
        Some(Heading { x: axis(right, left) as i8, z: axis(down, up) as i8 })
    }
}

/// Turns the arrow keys held this frame into a heading to send, or into
/// nothing where they ask for no movement. Nothing is sent to stop.
pub fn movement_system(right: bool, left: bool, up: bool, down: bool) -> (heading: Option<Heading>)
    ensures
        heading == heading_of(right, left, up, down),
{
    let mut x: i8 = 0;
    let mut z: i8 = 0;
    if right {
        x += 1;
    }
    if left {
        x -= 1;
    }
    if up {
        z -= 1;
    }
    if down {
        z += 1;
    }
    if x != 0 || z != 0 {
        Some(Heading { x, z })
    } else {
        None
    }
}

/// Asks for a bomb on every frame in which the bomb key is held; the
/// server's cooldown, not the client, spaces the bombs out.
pub fn bomb_system(held: bool) -> (request: Option<SpawnBomb>)
    ensures
        request.is_some() == held,
{
    if held {
        Some(SpawnBomb)
    } else {
        None
    }
}

} // verus!
