//! Registry-stable component ids.

use vstd::prelude::*;

verus! {

/// Position (2D).
pub const POSITION: u32 = 0;

/// Velocity (2D).
pub const VELOCITY: u32 = 1;

/// Transform (3D).
pub const TRANSFORM: u32 = 2;

/// Velocity of a gameplay actor (3D).
pub const VELOCITY3D: u32 = 80;

/// Gameplay actor tag and parameters.
pub const ACTOR: u32 = 81;

/// Color.
pub const COLOR: u32 = 72;

/// The numbers that the components go by.
pub proof fn law_component_ids(id: u32)
    ensures
        id == POSITION <==> id == 0,
        id == VELOCITY <==> id == 1,
        id == TRANSFORM <==> id == 2,
        id == COLOR <==> id == 72,
        id == VELOCITY3D <==> id == 80,
        id == ACTOR <==> id == 81,
{
}

} // verus!
