//! The camera's tracking rule.
//!
//! The camera follows the focused entity, offset upward by a fixed margin
//! so that more of the slope ahead is visible.

use vstd::prelude::*;

verus! {

use crate::geom::Vec2i;

/// How far above the camera center the focused entity rides.
pub const PLAYER_CAMERA_OFFSET: i64 = 32;

/// Where the camera stands for a focus at `focus`.
pub fn update_camera(focus: Vec2i) -> (camera: Vec2i)
    requires
        focus.y > i64::MIN + PLAYER_CAMERA_OFFSET,
    ensures
        camera.x == focus.x,
        camera.y == focus.y - PLAYER_CAMERA_OFFSET,
{
    Vec2i { x: focus.x, y: focus.y - PLAYER_CAMERA_OFFSET }
}

} // verus!
