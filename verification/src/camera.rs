//! The first-person camera's orientation and input handling.
//!
//! Angles are kept in milli-degrees as integers: yaw wrapped into one full
//! turn, pitch clamped strictly inside the open interval between -89 and
//! +89 degrees so that the derived view basis can never degenerate. The
//! rendering back-end converts these angles to its own number format when
//! it builds the view matrix; the decisions — how a mouse delta moves the
//! angles, where the pitch stops, which way the movement keys point — are
//! made and checked here.
//!
//! Sign convention: a positive horizontal mouse delta turns the camera
//! toward positive yaw, a positive vertical delta lowers the pitch, as the
//! engine has always had it.

use vstd::prelude::*;

verus! {

/// The pitch clamp bound, one milli-degree short of 89 degrees.
pub const PITCH_LIMIT_MDEG: i64 = 88999;

/// One full turn in milli-degrees.
pub const FULL_TURN_MDEG: i64 = 360000;

/// The largest accepted look sensitivity, in milli-degrees per mouse count.
pub const MAX_SENSITIVITY_MDEG: i64 = 45000;

/// Which movement keys are held this frame.
#[derive(Clone, Copy, Debug, PartialEq, Eq, Structural)]
pub struct MoveKeys {
    pub forward: bool,
    pub back: bool,
    pub left: bool,
    pub right: bool,
}

/// Where the held keys point: each component is -1, 0 or 1, in units of
/// the camera's forward and right directions.
#[derive(Clone, Copy, Debug, PartialEq, Eq, Structural)]
pub struct MoveIntent {
    pub forward: i32,
    pub strafe: i32,
}

/// The camera's state: orientation in milli-degrees, move speed in
/// thousandths of a world unit per frame, look sensitivity in
/// milli-degrees per mouse count.
#[derive(Clone, Copy, Debug, PartialEq, Eq, Structural)]
pub struct Camera {
    pub yaw_mdeg: i64,
    pub pitch_mdeg: i64,
    pub move_speed_milli: i64,
    pub sensitivity_mdeg: i64,
}

/// A pitch value pulled back to the clamp bounds.
pub open spec fn clamp_pitch(p: int) -> int {
    if p < -PITCH_LIMIT_MDEG {
        -PITCH_LIMIT_MDEG as int
    } else if p > PITCH_LIMIT_MDEG {
        PITCH_LIMIT_MDEG as int
    } else {
        p
    }
}

/// A yaw value wrapped into [0, one full turn).
pub open spec fn wrap_yaw(y: int) -> int {
    y % (FULL_TURN_MDEG as int)
}

impl Camera {
    /// The camera's invariant: yaw wrapped, pitch within the clamp bounds,
    /// sensitivity positive and bounded.
    pub open spec fn wf(&self) -> bool {
        &&& -PITCH_LIMIT_MDEG <= self.pitch_mdeg <= PITCH_LIMIT_MDEG
        &&& 0 <= self.yaw_mdeg < FULL_TURN_MDEG
        &&& 0 < self.sensitivity_mdeg <= MAX_SENSITIVITY_MDEG
        &&& 0 <= self.move_speed_milli
    }

    /// A fresh camera: level view, a tenth of a unit per frame, a tenth of
    /// a degree per mouse count.
    pub fn new() -> (c: Camera)
        ensures
            c == (Camera {
                yaw_mdeg: 0i64,
                pitch_mdeg: 0i64,
                move_speed_milli: 100i64,
                sensitivity_mdeg: 100i64,
            }),
            c.wf(),
    {
        Camera { yaw_mdeg: 0, pitch_mdeg: 0, move_speed_milli: 100, sensitivity_mdeg: 100 }
    }

    /// Point the camera: the yaw is wrapped and the pitch clamped so the
    /// invariant holds again. Used when the view is set toward a known
    /// target and the angles are derived back from it.
    pub fn set_orientation(&mut self, yaw_mdeg: i64, pitch_mdeg: i64)
        requires
            old(self).wf(),
        ensures
            final(self).wf(),
            final(self).yaw_mdeg == wrap_yaw(yaw_mdeg as int),
            final(self).pitch_mdeg == clamp_pitch(pitch_mdeg as int),
            final(self).move_speed_milli == old(self).move_speed_milli,
            final(self).sensitivity_mdeg == old(self).sensitivity_mdeg,
    {
        self.yaw_mdeg = wrap_yaw_exec(yaw_mdeg);
        self.pitch_mdeg = clamp_pitch_exec(pitch_mdeg);
    }

    /// Consume one frame's input. The mouse delta turns the camera: yaw
    /// advances by the horizontal delta times the sensitivity and wraps,
    /// pitch retreats by the vertical delta times the sensitivity and is
    /// clamped strictly inside the open interval between -89 and +89
    /// degrees — it can never reach 89 degrees, let alone 90. The held
    /// movement keys are folded into a movement intent along the camera's
    /// forward and right directions.
    pub fn process_input(&mut self, dx: i32, dy: i32, keys: MoveKeys) -> (intent: MoveIntent)
        requires
            old(self).wf(),
        ensures
            final(self).wf(),
            final(self).yaw_mdeg == wrap_yaw(
                old(self).yaw_mdeg + dx * old(self).sensitivity_mdeg,
            ),
            final(self).pitch_mdeg == clamp_pitch(
                old(self).pitch_mdeg - dy * old(self).sensitivity_mdeg,
            ),
            -89000 < final(self).pitch_mdeg < 89000,
            final(self).move_speed_milli == old(self).move_speed_milli,
            final(self).sensitivity_mdeg == old(self).sensitivity_mdeg,
            intent.forward as int == (if keys.forward {
                1int
            } else {
                0int
            }) - (if keys.back {
                1int
            } else {
                0int
            }),
            intent.strafe as int == (if keys.right {
                1int
            } else {
                0int
            }) - (if keys.left {
                1int
            } else {
                0int
            }),
    {
        let ghost s = self.sensitivity_mdeg as int;
        proof {
            assert(-(2147483648 * 45000) <= (dx as int) * s <= 2147483648 * 45000) by (nonlinear_arith)
                requires
                    -2147483648 <= dx as int <= 2147483647,
                    0 < s <= 45000,
            ;
            assert(-(2147483648 * 45000) <= (dy as int) * s <= 2147483648 * 45000) by (nonlinear_arith)
                requires
                    -2147483648 <= dy as int <= 2147483647,
                    0 < s <= 45000,
            ;
        }
        let yaw_delta: i64 = (dx as i64) * self.sensitivity_mdeg;
        let pitch_delta: i64 = (dy as i64) * self.sensitivity_mdeg;
        self.yaw_mdeg = wrap_yaw_exec(self.yaw_mdeg + yaw_delta);
        self.pitch_mdeg = clamp_pitch_exec(self.pitch_mdeg - pitch_delta);
        let forward: i32 = (if keys.forward {
            1
        } else {
            0
        }) - (if keys.back {
            1
        } else {
            0
        });
        let strafe: i32 = (if keys.right {
            1
        } else {
            0
        }) - (if keys.left {
            1
        } else {
            0
        });
        MoveIntent { forward, strafe }
    }
}

/// An input step with zero mouse deltas leaves a well-formed camera's
/// orientation exactly where it was: wrapping a wrapped yaw and clamping
/// a clamped pitch are the identity. By `process_input`'s contract, a
/// zero-delta frame therefore reproduces the same angles — and so the
/// same inputs to the view derivation — after the camera has been pointed
/// with `set_orientation`.
pub proof fn lemma_zero_delta_keeps_orientation(c: Camera)
    requires
        c.wf(),
    ensures
        wrap_yaw(c.yaw_mdeg + 0 * c.sensitivity_mdeg) == c.yaw_mdeg,
        clamp_pitch(c.pitch_mdeg - 0 * c.sensitivity_mdeg) == c.pitch_mdeg,
{
}

/// A well-formed camera's pitch lies strictly inside the open interval
/// between -89 and +89 degrees, so its view basis cannot degenerate.
pub proof fn lemma_wf_pitch_open(c: Camera)
    requires
        c.wf(),
    ensures
        -89000 < c.pitch_mdeg < 89000,
{
}

fn clamp_pitch_exec(p: i64) -> (r: i64)
    ensures
        r == clamp_pitch(p as int),
{
    if p < -PITCH_LIMIT_MDEG {
        -PITCH_LIMIT_MDEG
    } else if p > PITCH_LIMIT_MDEG {
        PITCH_LIMIT_MDEG
    } else {
        p
    }
}

fn wrap_yaw_exec(y: i64) -> (r: i64)
    ensures
        r == wrap_yaw(y as int),
        0 <= r < FULL_TURN_MDEG,
{
    let t: i64 = y % FULL_TURN_MDEG;
    if t < 0 {
        t + FULL_TURN_MDEG
    } else {
        t
    }
}

} // verus!
