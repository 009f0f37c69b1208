//! Transform edits of the rotate and scale tools.

use crate::contracts::components::Transform;
use crate::fx::Fx16;
use vstd::prelude::*;

verus! {

/// A transform whose rotation is replaced by the quaternion of a tool drag, given
/// the sine and the cosine of half the angle.
pub fn rotate_yaw(t: Transform, half_sin: Fx16, half_cos: Fx16) -> (r: Transform)
    ensures
        r == (Transform {
            rotation: [half_sin, Fx16::of_int(0), Fx16::of_int(0), half_cos],
            ..t
        }),
{
    let zero = Fx16::from_num(0);
    Transform {
        position: t.position,
        rotation: [half_sin, zero, zero, half_cos],
        scale: t.scale,
    }
}

/// A transform with another scale.
pub fn rescale(t: Transform, scale: [Fx16; 3]) -> (r: Transform)
    ensures
        r == (Transform { scale, ..t }),
{
    Transform { position: t.position, rotation: t.rotation, scale }
}

} // verus!
