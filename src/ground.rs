//! Short downward sweeps: whether the body stands on walkable ground, and
//! how far to move it down to rest on the floor beneath.

use vstd::prelude::*;
use crate::fixed::{bounded, dot, dot_spec, div_floor, Vec3, UNIT};
use crate::slide::{hit_within, ShapeHit, SweepRequest, MAX_MOTION};

verus! {

/// How far below the body ground is looked for.
pub const FLOOR_PROBE_DISTANCE: i64 = 200;

/// Extra reach of the floor-snap sweep beyond the snap length.
pub const SNAP_MARGIN: i64 = 50;

pub open spec fn neg_spec(v: Vec3) -> Vec3 {
    Vec3 { x: (-v.x) as i64, y: (-v.y) as i64, z: (-v.z) as i64 }
}

/// The sweep that tells whether the body at `origin` is grounded: against
/// the unit `up` direction, over `FLOOR_PROBE_DISTANCE`.
pub fn floor_probe(origin: Vec3, up: Vec3) -> (r: SweepRequest)
    requires
        bounded(up, UNIT as int),
    ensures
        r == (SweepRequest {
            origin,
            direction: neg_spec(up),
            max_distance: FLOOR_PROBE_DISTANCE,
        }),
{
    SweepRequest {
        origin,
        direction: Vec3 { x: -up.x, y: -up.y, z: -up.z },
        max_distance: FLOOR_PROBE_DISTANCE,
    }
}

/// Whether the unit normal `n` is within the walkable slope of `up`: the
/// angle between them is below the one whose cosine is `max_slope_cos`.
pub open spec fn walkable(n: Vec3, up: Vec3, max_slope_cos: int) -> bool {
    dot_spec(n, up) > max_slope_cos * UNIT
}

/// Classifies the outcome of `floor_probe`: grounded exactly when it touched
/// a surface of walkable slope.
pub fn is_on_floor(hit: Option<ShapeHit>, up: Vec3, max_slope_cos: i64) -> (r: bool)
    requires
        bounded(up, UNIT as int),
        -UNIT <= max_slope_cos <= UNIT,
        hit_within(hit, FLOOR_PROBE_DISTANCE as int),
    ensures
        r == match hit {
            None => false,
            Some(h) => walkable(h.normal1, up, max_slope_cos as int),
        },
{
    match hit {
        None => false,
        Some(h) => dot(h.normal1, up) > max_slope_cos * UNIT,
    }
}

/// The sweep that looks for a floor to snap to: straight down over the snap
/// length and `SNAP_MARGIN`.
pub fn snap_probe(origin: Vec3, floor_snap_length: i64) -> (r: SweepRequest)
    requires
        0 <= floor_snap_length <= MAX_MOTION,
    ensures
        r == (SweepRequest {
            origin,
            direction: Vec3 { x: 0, y: (-UNIT) as i64, z: 0 },
            max_distance: (floor_snap_length + SNAP_MARGIN) as i64,
        }),
{
    SweepRequest {
        origin,
        direction: Vec3 { x: 0, y: -UNIT, z: 0 },
        max_distance: floor_snap_length + SNAP_MARGIN,
    }
}

/// The downward snap for a floor touched at `h`: its distance less the
/// margin scaled by the cosine between the shape's normal and straight down.
pub open spec fn snap_spec(h: ShapeHit) -> Vec3 {
    Vec3 {
        x: 0,
        y: (-(h.time_of_impact - (SNAP_MARGIN * (-h.normal2.y)) / UNIT as int)) as i64,
        z: 0,
    }
}

/// Turns the outcome of `snap_probe` into a displacement: none without a
/// floor, `snap_spec` with one.
pub fn snap_to_floor(hit: Option<ShapeHit>, floor_snap_length: i64) -> (r: Vec3)
    requires
        0 <= floor_snap_length <= MAX_MOTION,
        hit_within(hit, floor_snap_length + SNAP_MARGIN),
    ensures
        r == snap_spec_or_zero(hit),
{
    match hit {
        None => Vec3 { x: 0, y: 0, z: 0 },
        Some(h) => {
            let offset = div_floor(SNAP_MARGIN * (-h.normal2.y), UNIT);
            proof {
                crate::fixed::lemma_div_bound(SNAP_MARGIN * (-h.normal2.y), UNIT as int, SNAP_MARGIN as int);
            }
            Vec3 { x: 0, y: -(h.time_of_impact - offset), z: 0 }
        },
    }
}

/// The floor snap never reaches beyond its sweep: without a floor it is
/// zero; with one touched by a shape whose normal does not point upward, it
/// is vertical and no longer than the snap length plus `SNAP_MARGIN`.
pub proof fn lemma_snap_within_reach(hit: Option<ShapeHit>, floor_snap_length: int)
    requires
        0 <= floor_snap_length <= MAX_MOTION,
        hit_within(hit, floor_snap_length + SNAP_MARGIN),
        hit matches Some(h) ==> h.normal2.y <= 0,
    ensures
        hit is None ==> snap_spec_or_zero(hit) == (Vec3 { x: 0, y: 0, z: 0 }),
        hit is Some ==> {
            let v = snap_spec_or_zero(hit);
            &&& v.x == 0
            &&& v.z == 0
            &&& -(floor_snap_length + SNAP_MARGIN) <= v.y <= floor_snap_length + SNAP_MARGIN
        },
{
    if let Some(h) = hit {
        crate::fixed::lemma_div_bound(SNAP_MARGIN * (-h.normal2.y), UNIT as int, SNAP_MARGIN as int);
        assert(0 <= (SNAP_MARGIN * (-h.normal2.y)) / UNIT as int);
    }
}

/// What `snap_to_floor` returns for `hit`.
pub open spec fn snap_spec_or_zero(hit: Option<ShapeHit>) -> Vec3 {
    match hit {
        None => Vec3 { x: 0, y: 0, z: 0 },
        Some(h) => snap_spec(h),
    }
}

} // verus!
