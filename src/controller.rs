//! Per-tick velocity bookkeeping of a kinematic character: gravity, input
//! acceleration, jumping and damping, and the motions handed to the
//! resolver. Speeds are in length steps per second, times in thousandths of
//! a second.

use vstd::prelude::*;
use crate::fixed::{bounded, div_floor, Vec3, UNIT};
use crate::slide::MAX_MOTION;

verus! {

/// Bound on each velocity component, kept by saturation.
pub const MAX_SPEED: i64 = 1000000;

/// Bound on a tick's duration.
pub const MAX_DT: i64 = 1000;

/// Horizontal velocity kept per tick by damping, in tenths.
pub const DAMPING_TENTHS: i64 = 9;

pub open spec fn clamp_speed_spec(v: int) -> int {
    if v > MAX_SPEED {
        MAX_SPEED as int
    } else if v < -MAX_SPEED {
        -MAX_SPEED
    } else {
        v
    }
}

pub fn clamp_speed(v: i64) -> (r: i64)
    ensures
        r == clamp_speed_spec(v as int),
{
    if v > MAX_SPEED {
        MAX_SPEED
    } else if v < -MAX_SPEED {
        -MAX_SPEED
    } else {
        v
    }
}

/// The moving state of one character.
pub struct MotionState {
    pub velocity: Vec3,
    pub grounded: bool,
    pub acceleration: i64,
    pub jump_impulse: i64,
    pub max_speed: i64,
}

impl MotionState {
    pub open spec fn wf(&self) -> bool {
        &&& bounded(self.velocity, MAX_SPEED as int)
        &&& 0 <= self.acceleration <= MAX_SPEED
        &&& 0 <= self.jump_impulse <= MAX_SPEED
    }

    /// Records the latest ground detection; nothing else changes.
    pub fn update_grounded(&mut self, grounded: bool)
        ensures
            *final(self) == (MotionState { grounded, ..*old(self) }),
    {
        self.grounded = grounded;
    }

    /// Airborne, vertical speed drops by `gravity * dt`; grounded, it is
    /// zero.
    pub fn apply_gravity(&mut self, gravity: i64, dt: i64)
        requires
            old(self).wf(),
            0 <= gravity <= MAX_SPEED,
            0 <= dt <= MAX_DT,
        ensures
            final(self).wf(),
            final(self).velocity.x == old(self).velocity.x,
            final(self).velocity.z == old(self).velocity.z,
            final(self).velocity.y == if old(self).grounded {
                0
            } else {
                clamp_speed_spec(old(self).velocity.y - (gravity * dt) / UNIT as int)
            },
            final(self).grounded == old(self).grounded,
            final(self).acceleration == old(self).acceleration,
            final(self).jump_impulse == old(self).jump_impulse,
            final(self).max_speed == old(self).max_speed,
    {
        if self.grounded {
            self.velocity.y = 0;
        } else {
            proof {
                crate::fixed::lemma_mul_bound(gravity as int, dt as int, MAX_SPEED as int, MAX_DT as int);
                crate::fixed::lemma_div_bound(gravity * dt, UNIT as int, MAX_SPEED as int);
            }
            let drop = div_floor(gravity * dt, UNIT);
            self.velocity.y = clamp_speed(self.velocity.y - drop);
        }
    }

    /// Accelerates along the horizontal, unit-scaled world direction
    /// `direction` by `acceleration * dt`.
    pub fn apply_input(&mut self, direction: Vec3, dt: i64)
        requires
            old(self).wf(),
            bounded(direction, UNIT as int),
            direction.y == 0,
            0 <= dt <= MAX_DT,
        ensures
            final(self).wf(),
            final(self).velocity == (Vec3 {
                x: clamp_speed_spec(
                    old(self).velocity.x + (direction.x * (old(self).acceleration * dt)) / (UNIT
                        * UNIT),
                ) as i64,
                y: old(self).velocity.y,
                z: clamp_speed_spec(
                    old(self).velocity.z + (direction.z * (old(self).acceleration * dt)) / (UNIT
                        * UNIT),
                ) as i64,
            }),
            final(self).grounded == old(self).grounded,
            final(self).acceleration == old(self).acceleration,
            final(self).jump_impulse == old(self).jump_impulse,
            final(self).max_speed == old(self).max_speed,
    {
        proof {
            crate::fixed::lemma_mul_bound(self.acceleration as int, dt as int, MAX_SPEED as int, MAX_DT as int);
        }
        let gain = self.acceleration * dt;
        proof {
            crate::fixed::lemma_mul_bound(direction.x as int, gain as int, UNIT as int, MAX_SPEED * MAX_DT);
            crate::fixed::lemma_mul_bound(direction.z as int, gain as int, UNIT as int, MAX_SPEED * MAX_DT);
            crate::fixed::lemma_div_bound(direction.x * gain, UNIT * UNIT, MAX_SPEED as int);
            crate::fixed::lemma_div_bound(direction.z * gain, UNIT * UNIT, MAX_SPEED as int);
        }
        let dx = div_floor(direction.x * gain, UNIT * UNIT);
        let dz = div_floor(direction.z * gain, UNIT * UNIT);
        self.velocity.x = clamp_speed(self.velocity.x + dx);
        self.velocity.z = clamp_speed(self.velocity.z + dz);
    }

    /// A requested jump sets the vertical speed to the jump impulse, but
    /// only from the ground.
    pub fn jump(&mut self, requested: bool)
        requires
            old(self).wf(),
        ensures
            final(self).wf(),
            *final(self) == if requested && old(self).grounded {
                MotionState {
                    velocity: Vec3 { y: old(self).jump_impulse, ..old(self).velocity },
                    ..*old(self)
                }
            } else {
                *old(self)
            },
    {
        if requested && self.grounded {
            self.velocity.y = self.jump_impulse;
        }
    }

    /// Keeps nine tenths of the horizontal velocity, rounded down.
    pub fn apply_damping(&mut self)
        requires
            old(self).wf(),
        ensures
            final(self).wf(),
            *final(self) == (MotionState {
                velocity: Vec3 {
                    x: ((old(self).velocity.x * DAMPING_TENTHS) / 10) as i64,
                    z: ((old(self).velocity.z * DAMPING_TENTHS) / 10) as i64,
                    ..old(self).velocity
                },
                ..*old(self)
            }),
    {
        self.velocity.x = div_floor(self.velocity.x * DAMPING_TENTHS, 10);
        self.velocity.z = div_floor(self.velocity.z * DAMPING_TENTHS, 10);
    }

    /// The desired horizontal motion over `dt`, for the first resolve pass.
    pub fn horizontal_motion(&self, dt: i64) -> (r: Vec3)
        requires
            self.wf(),
            0 <= dt <= MAX_DT,
        ensures
            r == (Vec3 {
                x: ((self.velocity.x * dt) / UNIT as int) as i64,
                y: 0,
                z: ((self.velocity.z * dt) / UNIT as int) as i64,
            }),
            bounded(r, MAX_MOTION as int),
    {
        proof {
            crate::fixed::lemma_mul_bound(self.velocity.x as int, dt as int, MAX_SPEED as int, MAX_DT as int);
            crate::fixed::lemma_mul_bound(self.velocity.z as int, dt as int, MAX_SPEED as int, MAX_DT as int);
            crate::fixed::lemma_div_bound(self.velocity.x * dt, UNIT as int, MAX_SPEED as int);
            crate::fixed::lemma_div_bound(self.velocity.z * dt, UNIT as int, MAX_SPEED as int);
        }
        Vec3 {
            x: div_floor(self.velocity.x * dt, UNIT),
            y: 0,
            z: div_floor(self.velocity.z * dt, UNIT),
        }
    }

    /// The desired vertical motion over `dt`, for the second resolve pass.
    pub fn vertical_motion(&self, dt: i64) -> (r: Vec3)
        requires
            self.wf(),
            0 <= dt <= MAX_DT,
        ensures
            r == (Vec3 { x: 0, y: ((self.velocity.y * dt) / UNIT as int) as i64, z: 0 }),
            bounded(r, MAX_MOTION as int),
    {
        proof {
            crate::fixed::lemma_mul_bound(self.velocity.y as int, dt as int, MAX_SPEED as int, MAX_DT as int);
            crate::fixed::lemma_div_bound(self.velocity.y * dt, UNIT as int, MAX_SPEED as int);
        }
        Vec3 { x: 0, y: div_floor(self.velocity.y * dt, UNIT), z: 0 }
    }

    /// Whether to snap to the floor this tick: grounded, not rising, and
    /// snapping enabled.
    pub fn should_snap(&self, floor_snap_length: i64) -> (r: bool)
        ensures
            r == (self.grounded && self.velocity.y <= 0 && floor_snap_length > 0),
    {
        self.grounded && self.velocity.y <= 0 && floor_snap_length > 0
    }
}

} // verus!
