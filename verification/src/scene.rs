//! Scene view configuration and how the translated input events mutate
//! it: pan, rotate (the pitch axis clamped to a quarter turn either way),
//! discrete zoom steps and animation-speed steps.

use vstd::prelude::*;
use crate::units::QUARTER_TURN;
use crate::units::clamp_spec;
use crate::units::clamp;
use crate::projection::MAX_ZOOM_COEFFICIENT;
use crate::projection::MAX_SCREEN_OFFSET;
use crate::animation::MAX_SPEED;
use crate::geometry::MAX_ANGLE;

verus! {

/// One scene's view state: pan offset (pixels), the two rotation angles
/// (arcseconds), the zoom coefficient (quarter steps of the zoom ratio)
/// and the animation speed (micro-years per second).
#[derive(Clone, Copy, PartialEq, Eq, Structural, Debug)]
pub struct SceneConfig {
    pub offset_x: i64,
    pub offset_y: i64,
    pub rotate_x: i64,
    pub rotate_y: i64,
    pub zoom_coefficient: i64,
    pub speed: i64,
}

/// The ranges every well-formed scene configuration keeps; input
/// application preserves them.
pub open spec fn scene_config_wf(c: SceneConfig) -> bool {
    &&& -MAX_SCREEN_OFFSET <= c.offset_x <= MAX_SCREEN_OFFSET
    &&& -MAX_SCREEN_OFFSET <= c.offset_y <= MAX_SCREEN_OFFSET
    &&& -QUARTER_TURN <= c.rotate_x <= QUARTER_TURN
    &&& -MAX_ANGLE <= c.rotate_y <= MAX_ANGLE
    &&& -MAX_ZOOM_COEFFICIENT <= c.zoom_coefficient <= MAX_ZOOM_COEFFICIENT
    &&& -MAX_SPEED <= c.speed <= MAX_SPEED
}

impl SceneConfig {
    /// The view every scene starts from: centred, unrotated, the default
    /// zoom coefficient (thirty units, counted in quarter steps) and unit
    /// speed.
    pub fn new() -> (c: SceneConfig)
        ensures
            c == (SceneConfig {
                offset_x: 0i64,
                offset_y: 0i64,
                rotate_x: 0i64,
                rotate_y: 0i64,
                zoom_coefficient: 120i64,
                speed: 1_000_000i64,
            }),
            scene_config_wf(c),
    {
        SceneConfig {
            offset_x: 0,
            offset_y: 0,
            rotate_x: 0,
            rotate_y: 0,
            zoom_coefficient: 120,
            speed: 1_000_000,
        }
    }

    /// Apply one frame's translated input: pan by the drag, rotate by the
    /// rotate-drag (the pitch axis clamped to a quarter turn either way,
    /// as the original view control does), and step the zoom coefficient
    /// and speed. Every field saturates at its well-formed range.
    pub fn apply_input(
        &mut self,
        drag_x: i64,
        drag_y: i64,
        rotate_drag_x: i64,
        rotate_drag_y: i64,
        zoom_step: i64,
        speed_step: i64,
    )
        requires
            scene_config_wf(*old(self)),
            -MAX_SCREEN_OFFSET <= drag_x <= MAX_SCREEN_OFFSET,
            -MAX_SCREEN_OFFSET <= drag_y <= MAX_SCREEN_OFFSET,
            -MAX_ANGLE <= rotate_drag_x <= MAX_ANGLE,
            -MAX_ANGLE <= rotate_drag_y <= MAX_ANGLE,
            -MAX_ZOOM_COEFFICIENT <= zoom_step <= MAX_ZOOM_COEFFICIENT,
            -MAX_SPEED <= speed_step <= MAX_SPEED,
        ensures
            final(self).offset_x as int == clamp_spec(
                old(self).offset_x + drag_x,
                -MAX_SCREEN_OFFSET as int,
                MAX_SCREEN_OFFSET as int,
            ),
            final(self).offset_y as int == clamp_spec(
                old(self).offset_y + drag_y,
                -MAX_SCREEN_OFFSET as int,
                MAX_SCREEN_OFFSET as int,
            ),
            final(self).rotate_x as int == clamp_spec(
                old(self).rotate_x + rotate_drag_y,
                -QUARTER_TURN as int,
                QUARTER_TURN as int,
            ),
            final(self).rotate_y as int == clamp_spec(
                old(self).rotate_y + rotate_drag_x,
                -MAX_ANGLE as int,
                MAX_ANGLE as int,
            ),
            final(self).zoom_coefficient as int == clamp_spec(
                old(self).zoom_coefficient + zoom_step,
                -MAX_ZOOM_COEFFICIENT as int,
                MAX_ZOOM_COEFFICIENT as int,
            ),
            final(self).speed as int == clamp_spec(
                old(self).speed + speed_step,
                -MAX_SPEED as int,
                MAX_SPEED as int,
            ),
            scene_config_wf(*final(self)),
    {
        self.offset_x = clamp(self.offset_x + drag_x, -MAX_SCREEN_OFFSET, MAX_SCREEN_OFFSET);
        self.offset_y = clamp(self.offset_y + drag_y, -MAX_SCREEN_OFFSET, MAX_SCREEN_OFFSET);
        self.rotate_x = clamp(self.rotate_x + rotate_drag_y, -QUARTER_TURN, QUARTER_TURN);
        self.rotate_y = clamp(self.rotate_y + rotate_drag_x, -MAX_ANGLE, MAX_ANGLE);
        self.zoom_coefficient = clamp(
            self.zoom_coefficient + zoom_step,
            -MAX_ZOOM_COEFFICIENT,
            MAX_ZOOM_COEFFICIENT,
        );
        self.speed = clamp(self.speed + speed_step, -MAX_SPEED, MAX_SPEED);
    }
}

/// A discrete zoom step from a continuous scroll or pinch amount: one
/// quarter step towards the input's sign.
pub fn discrete_zoom_step(amount: i64) -> (r: i64)
    ensures
        amount < 0 ==> r == -1,
        amount == 0 ==> r == 0,
        amount > 0 ==> r == 1,
{
    if amount < 0 {
        -1
    } else if amount == 0 {
        0
    } else {
        1
    }
}

} // verus!
