//! What a click on a part asks for while building.

use vstd::prelude::*;

verus! {

/// What a click on a part while building asks the server, or the part, for.
#[derive(Debug, Clone, Copy, PartialEq, Eq, Structural)]
pub enum BuildAction {
    /// Nothing: the left button was not just pressed.
    Nothing,
    /// Delete the part clicked on (left click with left Alt held).
    DeletePart,
    /// Empty the voxel clicked on (left click with left Control held, and not Alt).
    DeleteVoxel,
    /// Place a part where the marker stands (a plain left click).
    PlacePart,
}

/// The action for a click: left Alt takes precedence over left Control, and a left
/// click with neither places a part.
pub fn build_action(left_just_pressed: bool, alt_held: bool, control_held: bool) -> (action: BuildAction)
    ensures
        !left_just_pressed ==> action == BuildAction::Nothing,
        left_just_pressed && alt_held ==> action == BuildAction::DeletePart,
        left_just_pressed && !alt_held && control_held ==> action == BuildAction::DeleteVoxel,
        left_just_pressed && !alt_held && !control_held ==> action == BuildAction::PlacePart,
{
    if left_just_pressed {
        if alt_held {
            BuildAction::DeletePart
        } else if control_held {
            BuildAction::DeleteVoxel
        } else {
            BuildAction::PlacePart
        }
    } else {
        BuildAction::Nothing
    }
}

} // verus!
