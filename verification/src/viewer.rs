//! The viewer: a position in continuous world coordinates and a heading.
//!
//! Both coordinates are 16.16 fixed point; the heading is a fixed-point
//! angle kept folded into one turn (only its sine and cosine are ever
//! consumed, and those depend only on the angle's class modulo one turn,
//! so folding loses nothing). The per-frame update is a pure transform:
//! forward and back move along `(-sin a, cos a)`, strafing uses the same
//! direction formula a quarter turn behind the heading, and the heading
//! accumulates the pointer's horizontal delta divided by a sensitivity
//! divisor. The update never consults the map: movement through walls is
//! the documented behaviour, and callers that want collision can test the
//! destination cell themselves before applying the update.

use crate::fixed::{
    angle_reduced, mul_fp, reduce_angle, sin_fp, cos_fp, spec_mul_fp, spec_reduce_angle,
    spec_sin_fp, spec_cos_fp, FP_ONE, HALF_PI_FP, TWO_PI_FP,
};
use vstd::prelude::*;

verus! {

/// Largest world coordinate magnitude, in fixed point.
pub const POS_LIMIT: i64 = 0x100_0000_0000;

/// Largest movement speed per frame, in fixed point.
pub const MAX_SPEED: i64 = 0x400_0000;

/// Largest pointer delta accepted per frame, in pixels.
pub const MAX_MOUSE_DELTA: i64 = 0x10_0000;

/// Pose of the viewer: fixed-point world position and folded heading.
pub struct Viewer {
    pub x: i64,
    pub y: i64,
    pub angle: i64,
}

/// Pointer delta scaled to a fixed-point angle by a sensitivity divisor,
/// truncated toward zero.
pub open spec fn spec_turn_delta(mouse_dx: int, divisor: int) -> int
    recommends
        divisor >= 1,
{
    if mouse_dx >= 0 {
        (mouse_dx * FP_ONE) / divisor
    } else {
        -(((-mouse_dx) * FP_ONE) / divisor)
    }
}

/// X step of one move at full speed along the heading.
pub open spec fn spec_forward_dx(angle: int, speed: int) -> int {
    -spec_mul_fp(spec_sin_fp(angle), speed)
}

/// Y step of one move at full speed along the heading.
pub open spec fn spec_forward_dy(angle: int, speed: int) -> int {
    spec_mul_fp(spec_cos_fp(angle), speed)
}

/// X step of one strafe: the forward step a quarter turn behind.
pub open spec fn spec_strafe_dx(angle: int, speed: int) -> int {
    spec_forward_dx(angle - HALF_PI_FP, speed)
}

/// Y step of one strafe: the forward step a quarter turn behind.
pub open spec fn spec_strafe_dy(angle: int, speed: int) -> int {
    spec_forward_dy(angle - HALF_PI_FP, speed)
}

impl Viewer {
    /// Structural invariant: position within the world limit, heading folded.
    pub open spec fn wf(self) -> bool {
        &&& -POS_LIMIT <= self.x <= POS_LIMIT
        &&& -POS_LIMIT <= self.y <= POS_LIMIT
        &&& angle_reduced(self.angle as int)
    }

    /// The pose after one frame of input: back wins over forward, left over
    /// right, movement reads the heading before it turns.
    pub open spec fn spec_update(
        self,
        forward: bool,
        back: bool,
        left: bool,
        right: bool,
        mouse_dx: int,
        speed: int,
        divisor: int,
    ) -> Viewer {
        let fdx = spec_forward_dx(self.angle as int, speed);
        let fdy = spec_forward_dy(self.angle as int, speed);
        let sdx = spec_strafe_dx(self.angle as int, speed);
        let sdy = spec_strafe_dy(self.angle as int, speed);
        let x1 = if back {
            self.x - fdx
        } else if forward {
            self.x + fdx
        } else {
            self.x as int
        };
        let y1 = if back {
            self.y - fdy
        } else if forward {
            self.y + fdy
        } else {
            self.y as int
        };
        let x2 = if left {
            x1 - sdx
        } else if right {
            x1 + sdx
        } else {
            x1
        };
        let y2 = if left {
            y1 - sdy
        } else if right {
            y1 + sdy
        } else {
            y1
        };
        let a2 = spec_reduce_angle(self.angle + spec_turn_delta(mouse_dx, divisor));
        Viewer { x: x2 as i64, y: y2 as i64, angle: a2 as i64 }
    }

    /// Builds a viewer from a fixed-point position and any heading; the
    /// heading is folded into one turn.
    pub fn new(x: i64, y: i64, angle: i64) -> (v: Viewer)
        requires
            -POS_LIMIT <= x <= POS_LIMIT,
            -POS_LIMIT <= y <= POS_LIMIT,
        ensures
            v.wf(),
            v.x == x,
            v.y == y,
            v.angle == spec_reduce_angle(angle as int),
    {
        Viewer { x, y, angle: reduce_angle(angle) }
    }

    /// Applies one frame of movement and turn input.
    pub fn update(
        &mut self,
        forward: bool,
        back: bool,
        left: bool,
        right: bool,
        mouse_dx: i64,
        speed: i64,
        divisor: i64,
    )
        requires
            old(self).wf(),
            0 <= speed <= MAX_SPEED,
            1 <= divisor,
            -MAX_MOUSE_DELTA <= mouse_dx <= MAX_MOUSE_DELTA,
            -POS_LIMIT + 2 * speed <= old(self).x <= POS_LIMIT - 2 * speed,
            -POS_LIMIT + 2 * speed <= old(self).y <= POS_LIMIT - 2 * speed,
        ensures
            *final(self) == old(self).spec_update(
                forward,
                back,
                left,
                right,
                mouse_dx as int,
                speed as int,
                divisor as int,
            ),
            final(self).wf(),
    {
        let sin_a = sin_fp(self.angle);
        let cos_a = cos_fp(self.angle);
        let sin_s = sin_fp(self.angle - HALF_PI_FP);
        let cos_s = cos_fp(self.angle - HALF_PI_FP);
        let fdx = -mul_fp(sin_a, speed);
        let fdy = mul_fp(cos_a, speed);
        let sdx = -mul_fp(sin_s, speed);
        let sdy = mul_fp(cos_s, speed);
        if back {
            self.x = self.x - fdx;
            self.y = self.y - fdy;
        } else if forward {
            self.x = self.x + fdx;
            self.y = self.y + fdy;
        }
        if left {
            self.x = self.x - sdx;
            self.y = self.y - sdy;
        } else if right {
            self.x = self.x + sdx;
            self.y = self.y + sdy;
        }
        let delta = turn_delta(mouse_dx, divisor);
        self.angle = reduce_angle(self.angle + delta);
    }
}

/// Evaluates `spec_turn_delta`.
fn turn_delta(mouse_dx: i64, divisor: i64) -> (r: i64)
    requires
        -MAX_MOUSE_DELTA <= mouse_dx <= MAX_MOUSE_DELTA,
        1 <= divisor,
    ensures
        r == spec_turn_delta(mouse_dx as int, divisor as int),
        -MAX_MOUSE_DELTA * FP_ONE <= r <= MAX_MOUSE_DELTA * FP_ONE,
{
    proof {
        if mouse_dx >= 0 {
            vstd::arithmetic::div_mod::lemma_div_nonincreasing(mouse_dx * FP_ONE, divisor as int);
            vstd::arithmetic::div_mod::lemma_div_pos_is_pos(mouse_dx * FP_ONE, divisor as int);
        } else {
            vstd::arithmetic::div_mod::lemma_div_nonincreasing((-mouse_dx) * FP_ONE, divisor as int);
            vstd::arithmetic::div_mod::lemma_div_pos_is_pos((-mouse_dx) * FP_ONE, divisor as int);
        }
    }
    if mouse_dx >= 0 {
        (mouse_dx * FP_ONE) / divisor
    } else {
        -(((-mouse_dx) * FP_ONE) / divisor)
    }
}

} // verus!
