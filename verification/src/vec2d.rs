//! 2D velocity in milli-units per frame, recomposed from an angle and a
//! speed. By this library's convention the sine feeds the horizontal
//! component and the cosine the vertical one, so angle zero points
//! straight down the positive y axis.
use vstd::prelude::*;
use crate::num::ANGLE_LIMIT;
use crate::num::SPEED_LIMIT;
use crate::num::clip64;
use crate::num::scale_mul;
use crate::num::mul_scaled;
use crate::num::sat_add;
use crate::trig::sin_spec;
use crate::trig::cos_spec;
use crate::trig::sin_mdeg;
use crate::trig::cos_mdeg;

verus! {

/// The horizontal velocity component for an angle and a speed.
pub open spec fn vel_x_spec(angle: int, speed: int) -> int {
    scale_mul(sin_spec(angle), speed)
}

/// The vertical velocity component for an angle and a speed.
pub open spec fn vel_y_spec(angle: int, speed: int) -> int {
    scale_mul(cos_spec(angle), speed)
}

/// A velocity, in milli-units per frame on each axis.
#[derive(Debug, Clone, Copy, PartialEq, Eq, Structural)]
pub struct Vec2d {
    pub x: i64,
    pub y: i64,
}

impl Vec2d {
    /// Composes the velocity for an angle (milli-degrees) and a speed
    /// (milli-units per frame).
    pub fn new(angle: i64, speed: i64) -> (r: Vec2d)
        requires
            -ANGLE_LIMIT <= angle <= ANGLE_LIMIT,
            -SPEED_LIMIT <= speed <= SPEED_LIMIT,
        ensures
            r.x == vel_x_spec(angle as int, speed as int),
            r.y == vel_y_spec(angle as int, speed as int),
    {
        let s = sin_mdeg(angle);
        let c = cos_mdeg(angle);
        Vec2d { x: mul_scaled(s, speed), y: mul_scaled(c, speed) }
    }

    /// Recomposes both components from a new angle and speed; they are
    /// never changed independently.
    pub fn angle_change(&mut self, angle: i64, speed: i64)
        requires
            -ANGLE_LIMIT <= angle <= ANGLE_LIMIT,
            -SPEED_LIMIT <= speed <= SPEED_LIMIT,
        ensures
            final(self).x == vel_x_spec(angle as int, speed as int),
            final(self).y == vel_y_spec(angle as int, speed as int),
    {
        let s = sin_mdeg(angle);
        let c = cos_mdeg(angle);
        self.x = mul_scaled(s, speed);
        self.y = mul_scaled(c, speed);
    }

    /// Componentwise sum, saturating at the fixed-point range; used by
    /// gravity, which accumulates onto the velocity.
    pub fn plus(self, other: Vec2d) -> (r: Vec2d)
        ensures
            r.x == clip64(self.x + other.x),
            r.y == clip64(self.y + other.y),
    {
        Vec2d { x: sat_add(self.x, other.x), y: sat_add(self.y, other.y) }
    }
}

} // verus!
