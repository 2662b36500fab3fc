//! Which way the keys held move the controlled player, and which camera becomes
//! the active one when the player switches cameras.

use vstd::prelude::*;

verus! {

/// A direction in whole steps along each axis, each step -1, 0 or 1.
#[derive(Debug, Clone, Copy, PartialEq, Eq, Structural)]
pub struct Direction {
    pub x: i8,
    pub y: i8,
    pub z: i8,
}

/// The keys that move the player.
#[derive(Debug, Clone, Copy, PartialEq, Eq, Structural)]
pub struct MovementKeys {
    /// W: forward, toward -z.
    pub forward: bool,
    /// S: back, toward +z.
    pub back: bool,
    /// A: left, toward -x.
    pub left: bool,
    /// D: right, toward +x.
    pub right: bool,
    /// Space: up, toward +y.
    pub up: bool,
    /// C: down, toward -y.
    pub down: bool,
}

/// The step along an axis for the keys toward its two ends: opposite keys cancel.
pub open spec fn axis(toward_plus: bool, toward_minus: bool) -> int {
    (if toward_plus { 1int } else { 0int }) - (if toward_minus { 1int } else { 0int })
}

/// Along each axis the key toward its plus end alone gives a step of 1, the key
/// toward its minus end alone a step of -1, and both or neither no step.
pub proof fn lemma_axis_steps(both: bool)
    ensures
        axis(true, false) == 1,
        axis(false, true) == -1,
        axis(both, both) == 0,
{
}

/// The direction the keys held push the player in, before it is made unit length.
pub fn movement_direction(keys: MovementKeys) -> (d: Direction)
    ensures
        d.x == axis(keys.right, keys.left),
        d.y == axis(keys.up, keys.down),
        d.z == axis(keys.back, keys.forward),
{
    let mut d = Direction { x: 0, y: 0, z: 0 };
    if keys.forward {
        d.z = d.z - 1;
    }
    if keys.back {
        d.z = d.z + 1;
    }
    if keys.left {
        d.x = d.x - 1;
    }
    if keys.right {
        d.x = d.x + 1;
    }
    if keys.up {
        d.y = d.y + 1;
    }
    if keys.down {
        d.y = d.y - 1;
    }
    d
}

/// The camera that becomes active when the player switches cameras, from the
/// cameras in the order they are listed and the active one: none when there are
/// fewer than two; else the first listed camera that is not the active one, or the
/// first listed when every listed camera is the active one.
pub fn next_active_camera(cameras: &[u64], active: u64) -> (next: Option<u64>)
    ensures
        cameras@.len() < 2 ==> next is None,
        cameras@.len() >= 2 ==> next is Some,
        cameras@.len() >= 2 && (forall|j: int| 0 <= j < cameras@.len() ==> cameras@[j] == active)
            ==> next == Some(cameras@[0]),
        forall|i: int|
            0 <= i < cameras@.len() && cameras@.len() >= 2 && #[trigger] cameras@[i] != active && (
            forall|j: int| 0 <= j < i ==> cameras@[j] == active) ==> next == Some(cameras@[i]),
{
    if cameras.len() < 2 {
        return None;
    }
    let mut i: usize = 0;
    while i < cameras.len()
        invariant
            i <= cameras@.len(),
            cameras@.len() >= 2,
            forall|j: int| 0 <= j < i ==> cameras@[j] == active,
        decreases cameras@.len() - i,
    {
        if cameras[i] != active {
            proof {
                assert forall|k: int|
                    0 <= k < cameras@.len() && #[trigger] cameras@[k] != active && (forall|j: int|
                        0 <= j < k ==> cameras@[j] == active) implies k == i by {
                    if k < i {
                    } else if k > i {
                        assert(cameras@[i as int] == active);
                    }
                }
            }
            return Some(cameras[i]);
        }
        i = i + 1;
    }
    Some(cameras[0])
}

} // verus!
