//! The collide-and-slide bounce loop, as a state machine: the resolver asks
//! for one sweep at a time (`next_sweep`) and consumes its outcome
//! (`apply_hit`) until it has settled on a displacement.

use vstd::prelude::*;
use crate::fixed::{
    bounded, lemma_div_bound, lemma_mul_bound, cross, cross_spec, dot, dot_spec, is_floor_sqrt, is_zero, norm_sq, normalize, plus,
    plus_spec, project_onto_line, project_spec, reject_from_normalized, reject_spec, scale,
    scale_spec, Vec3, MAX_COMPONENT, UNIT,
};

verus! {

/// Bound on each component of a desired motion.
pub const MAX_MOTION: i64 = 16777216;

/// Bound on the configured iteration budget.
pub const MAX_BOUNCES: usize = 1024;

/// Bound on how far one bounce can move the body along any axis.
pub const STEP_BOUND: i64 = 4294967296;

/// Advancing more than this since the last contact releases older clip planes.
pub const PLANE_RESET_EPSILON: i64 = 10;

pub struct CollideAndSlideConfig {
    /// Unit up direction.
    pub up_direction: Vec3,
    /// Safety margin kept between the shape and what it touches.
    pub skin_width: i64,
    /// Cosine of the steepest walkable slope angle, in unit scale.
    pub max_slope_cos: i64,
    pub floor_snap_length: i64,
    /// Reserved; the resolution does not read it.
    pub constant_speed: bool,
    pub max_bounces: usize,
    pub max_clip_planes: usize,
}

impl CollideAndSlideConfig {
    pub open spec fn wf(&self) -> bool {
        &&& bounded(self.up_direction, UNIT as int)
        &&& 0 < self.skin_width <= MAX_MOTION
        &&& -UNIT <= self.max_slope_cos <= UNIT
        &&& 0 <= self.floor_snap_length <= MAX_MOTION
        &&& self.max_bounces <= MAX_BOUNCES
    }
}

pub struct CollideAndSlideResult {
    pub slide_target: Vec3,
    pub obstacle_hit: bool,
}

/// A sweep the resolver asks for: the shape cast from `origin` along the
/// unit `direction` for at most `max_distance`.
#[derive(Clone, Copy, Debug, PartialEq, Eq, Structural)]
pub struct SweepRequest {
    pub origin: Vec3,
    pub direction: Vec3,
    pub max_distance: i64,
}

/// The first obstacle a sweep touched.
#[derive(Clone, Copy, Debug, PartialEq, Eq, Structural)]
pub struct ShapeHit {
    /// Distance travelled along the sweep before contact.
    pub time_of_impact: i64,
    /// Unit contact normal on the obstacle, pointing away from it.
    pub normal1: Vec3,
    /// Unit contact normal on the swept shape.
    pub normal2: Vec3,
}

/// What a sweep limited to `max_distance` may report.
pub open spec fn hit_within(hit: Option<ShapeHit>, max_distance: int) -> bool {
    match hit {
        None => true,
        Some(h) => 0 <= h.time_of_impact <= max_distance && bounded(h.normal1, UNIT as int)
            && bounded(h.normal2, UNIT as int),
    }
}

/// Whether the motion `m`, once clipped against one of `planes`, still
/// points into another of them.
pub open spec fn crease_between(m: Vec3, planes: Seq<Vec3>) -> bool {
    exists|i: int, j: int|
        0 <= i < planes.len() && 0 <= j < planes.len() && i != j && #[trigger] dot_spec(
            reject_spec(m, planes[i]),
            planes[j],
        ) < 0
}

/// The velocity that slides `m` along the active `planes`: clipped against
/// the newest plane; along the crease of two planes where clipping against
/// one still enters the other; `None` where such a crease involves more
/// than two planes.
pub open spec fn slide_velocity_spec(m: Vec3, planes: Seq<Vec3>) -> Option<Vec3> {
    if crease_between(m, planes) {
        if planes.len() == 2 {
            let r0 = reject_spec(m, planes[0]);
            let pv = if dot_spec(r0, planes[1]) < 0 {
                r0
            } else {
                reject_spec(m, planes[1])
            };
            Some(project_spec(pv, cross_spec(planes[0], planes[1])))
        } else {
            None
        }
    } else {
        Some(reject_spec(m, planes.last()))
    }
}

pub open spec fn max0(a: int) -> int {
    if a < 0 {
        0
    } else {
        a
    }
}

pub open spec fn abs(a: int) -> int {
    if a < 0 {
        -a
    } else {
        a
    }
}

/// Resolution in progress of one desired motion.
pub struct CollideAndSlide {
    pub origin: Vec3,
    /// The desired motion this resolution started from.
    pub motion: Vec3,
    /// Motion still to be attempted: `direction` scaled by `distance`.
    pub velocity: Vec3,
    pub direction: Vec3,
    pub distance: i64,
    /// Active clip planes.
    pub planes: Vec<Vec3>,
    /// Displacement accumulated so far.
    pub slide_target: Vec3,
    /// Sweeps consumed so far.
    pub bounces: usize,
    pub done: bool,
    pub obstacle_hit: bool,
}

impl CollideAndSlide {
    pub open spec fn wf(&self, c: CollideAndSlideConfig) -> bool {
        &&& c.wf()
        &&& bounded(self.motion, MAX_MOTION as int)
        &&& self.planes.len() <= c.max_clip_planes
        &&& forall|k: int| 0 <= k < self.planes.len() ==> bounded(#[trigger] self.planes[k], UNIT as int)
        &&& self.bounces <= c.max_bounces
        &&& bounded(self.slide_target, self.bounces * STEP_BOUND)
        &&& !self.done ==> {
            &&& bounded(self.velocity, MAX_COMPONENT as int)
            &&& bounded(self.direction, UNIT as int)
            &&& 0 < self.distance < 0x8000_0000
        }
    }

    /// `direction` and `distance` are the unit direction and length of `velocity`.
    pub open spec fn heads_along(&self, v: Vec3) -> bool {
        &&& self.velocity == v
        &&& is_floor_sqrt(norm_sq(v), self.distance as int)
        &&& self.direction == scale_spec(v, UNIT as int, self.distance as int)
    }

    /// The state in which resolving `motion` from `origin` begins.
    pub open spec fn began(&self, origin: Vec3, motion: Vec3) -> bool {
        &&& self.origin == origin
        &&& self.motion == motion
        &&& self.planes@ == Seq::<Vec3>::empty()
        &&& self.slide_target == Vec3 { x: 0, y: 0, z: 0 }
        &&& self.bounces == 0
        &&& !self.obstacle_hit
        &&& self.done == is_zero(motion)
        &&& !is_zero(motion) ==> self.heads_along(motion)
    }

    /// Whether more sweeps are to come.
    pub open spec fn running(&self, c: CollideAndSlideConfig) -> bool {
        !self.done && self.bounces < c.max_bounces
    }

    /// The sweep a running resolution asks for.
    pub open spec fn request_spec(&self, c: CollideAndSlideConfig) -> SweepRequest {
        SweepRequest {
            origin: self.origin,
            direction: self.direction,
            max_distance: (self.distance + c.skin_width) as i64,
        }
    }

    /// What one bounce adds to the displacement.
    pub open spec fn advance_spec(&self, c: CollideAndSlideConfig, hit: Option<ShapeHit>) -> Vec3 {
        match hit {
            None => self.velocity,
            Some(h) => if h.time_of_impact >= self.distance {
                scale_spec(self.direction, max0(h.time_of_impact - c.skin_width), UNIT as int)
            } else {
                scale_spec(self.direction, h.time_of_impact - c.skin_width, UNIT as int)
            },
        }
    }

    /// The clip planes that stay active after advancing to a contact.
    pub open spec fn kept_planes(&self, c: CollideAndSlideConfig, h: ShapeHit) -> Seq<Vec3> {
        if abs(h.time_of_impact - c.skin_width) > PLANE_RESET_EPSILON {
            Seq::<Vec3>::empty()
        } else {
            self.planes@
        }
    }

    /// `next` is this state after one bounce whose sweep reported `hit`.
    pub open spec fn stepped(
        &self,
        next: CollideAndSlide,
        c: CollideAndSlideConfig,
        hit: Option<ShapeHit>,
    ) -> bool {
        &&& next.origin == self.origin
        &&& next.motion == self.motion
        &&& next.bounces == self.bounces + 1
        &&& next.slide_target == plus_spec(self.slide_target, self.advance_spec(c, hit))
        &&& next.obstacle_hit == (self.obstacle_hit || hit is Some)
        &&& match hit {
            None => next.done && next.planes@ == self.planes@,
            Some(h) => if h.time_of_impact >= self.distance {
                next.done && next.planes@ == self.planes@
            } else {
                let kept = self.kept_planes(c, h);
                if kept.len() >= c.max_clip_planes {
                    next.done && next.planes@ == kept
                } else {
                    let planes = kept.push(h.normal1);
                    &&& next.planes@ == planes
                    &&& match slide_velocity_spec(self.motion, planes) {
                        None => next.done,
                        Some(pv) => if dot_spec(pv, self.motion) <= 0 {
                            next.done
                        } else {
                            !next.done && next.heads_along(pv)
                        },
                    }
                }
            },
        }
    }

    /// The sweep to perform next, or `None` once the resolution has settled.
    pub fn next_sweep(&self, c: &CollideAndSlideConfig) -> (r: Option<SweepRequest>)
        requires
            self.wf(*c),
        ensures
            r is None <==> !self.running(*c),
            r matches Some(q) ==> q == self.request_spec(*c),
    {
        if self.done || self.bounces >= c.max_bounces {
            None
        } else {
            Some(
                SweepRequest {
                    origin: self.origin,
                    direction: self.direction,
                    max_distance: self.distance + c.skin_width,
                },
            )
        }
    }

    /// Consumes the outcome of the requested sweep: advances toward the
    /// contact, records its plane and sets up the next bounce, or settles.
    pub fn apply_hit(&mut self, c: &CollideAndSlideConfig, hit: Option<ShapeHit>)
        requires
            old(self).wf(*c),
            old(self).running(*c),
            hit_within(hit, old(self).distance + c.skin_width),
        ensures
            final(self).wf(*c),
            old(self).stepped(*final(self), *c, hit),
    {
        let ghost s0 = *self;
        proof {
            lemma_step_bound(self.slide_target, self.bounces as int);
        }
        self.bounces = self.bounces + 1;
        match hit {
            None => {
                self.slide_target = plus(self.slide_target, self.velocity);
                self.done = true;
            },
            Some(h) => {
                self.obstacle_hit = true;
                let skin = c.skin_width;
                if h.time_of_impact >= self.distance {
                    let gap = if h.time_of_impact - skin < 0 {
                        0
                    } else {
                        h.time_of_impact - skin
                    };
                    proof {
                        lemma_scale_step(self.direction, gap as int);
                    }
                    self.slide_target = plus(self.slide_target, scale(self.direction, gap, UNIT));
                    self.done = true;
                    return;
                }
                let advanced = h.time_of_impact - skin;
                proof {
                    lemma_scale_step(self.direction, advanced as int);
                }
                self.slide_target = plus(self.slide_target, scale(self.direction, advanced, UNIT));
                if advanced > PLANE_RESET_EPSILON || advanced < -PLANE_RESET_EPSILON {
                    self.planes = Vec::new();
                }
                if self.planes.len() >= c.max_clip_planes {
                    self.done = true;
                    return;
                }
                self.planes.push(h.normal1);
                assert(self.planes@ == s0.kept_planes(*c, h).push(h.normal1));
                match slide_velocity(self.motion, &self.planes) {
                    None => {
                        self.done = true;
                    },
                    Some(pv) => {
                        if dot(pv, self.motion) <= 0 {
                            self.done = true;
                        } else {
                            match normalize(pv) {
                                None => {
                                    let ghost m = self.motion;
                                    assert(pv.x * m.x + pv.y * m.y + pv.z * m.z == 0)
                                        by (nonlinear_arith)
                                        requires
                                            pv.x == 0 && pv.y == 0 && pv.z == 0,
                                    ;
                                    self.done = true;
                                },
                                Some((direction, distance)) => {
                                    self.velocity = pv;
                                    self.direction = direction;
                                    self.distance = distance;
                                },
                            }
                        }
                    },
                }
            },
        }
    }

    /// The displacement and contact flag accumulated so far.
    pub fn result(&self) -> (r: CollideAndSlideResult)
        ensures
            r.slide_target == self.slide_target,
            r.obstacle_hit == self.obstacle_hit,
    {
        CollideAndSlideResult { slide_target: self.slide_target, obstacle_hit: self.obstacle_hit }
    }
}

pub proof fn lemma_step_bound(t: Vec3, b: int)
    requires
        bounded(t, b * STEP_BOUND),
        0 <= b,
    ensures
        bounded(t, (b + 1) * STEP_BOUND),
        (b + 1) * STEP_BOUND == b * STEP_BOUND + STEP_BOUND,
{
    assert((b + 1) * STEP_BOUND == b * STEP_BOUND + STEP_BOUND) by (nonlinear_arith);
}

/// One bounce moves at most `STEP_BOUND` along each axis.
pub proof fn lemma_scale_step(d: Vec3, k: int)
    requires
        bounded(d, UNIT as int),
        -(0x8000_0000 + MAX_MOTION) <= k <= 0x8000_0000 + MAX_MOTION,
    ensures
        bounded(scale_spec(d, k, UNIT as int), STEP_BOUND as int),
        -0x7fff_ffff_ffff_ffff <= d.x * k <= 0x7fff_ffff_ffff_ffff,
        -0x7fff_ffff_ffff_ffff <= d.y * k <= 0x7fff_ffff_ffff_ffff,
        -0x7fff_ffff_ffff_ffff <= d.z * k <= 0x7fff_ffff_ffff_ffff,
{
    let m = 0x8000_0000 + MAX_MOTION;
    lemma_mul_bound(d.x as int, k, UNIT as int, m);
    lemma_mul_bound(d.y as int, k, UNIT as int, m);
    lemma_mul_bound(d.z as int, k, UNIT as int, m);
    assert(k * d.x == d.x * k && k * d.y == d.y * k && k * d.z == d.z * k) by (nonlinear_arith);
    lemma_div_bound(d.x * k, UNIT as int, m);
    lemma_div_bound(d.y * k, UNIT as int, m);
    lemma_div_bound(d.z * k, UNIT as int, m);
}

/// Slides the motion `m` along the active `planes`; `None` where it meets
/// a crease of more than two planes.
pub fn slide_velocity(m: Vec3, planes: &Vec<Vec3>) -> (r: Option<Vec3>)
    requires
        bounded(m, MAX_MOTION as int),
        planes.len() > 0,
        forall|k: int| 0 <= k < planes.len() ==> bounded(#[trigger] planes[k], UNIT as int),
    ensures
        r == slide_velocity_spec(m, planes@),
        r matches Some(pv) ==> bounded(pv, MAX_COMPONENT as int),
{
    let n = planes.len();
    let mut crease = false;
    let mut i: usize = 0;
    while i < n && !crease
        invariant
            0 <= i <= n,
            n == planes.len(),
            bounded(m, MAX_MOTION as int),
            forall|k: int| 0 <= k < planes.len() ==> bounded(#[trigger] planes[k], UNIT as int),
            crease ==> crease_between(m, planes@),
            !crease ==> forall|a: int, b: int|
                0 <= a < i && 0 <= b < n && a != b ==> #[trigger] dot_spec(
                    reject_spec(m, planes@[a]),
                    planes@[b],
                ) >= 0,
        decreases n - i, if crease { 0int } else { 1int },
    {
        let pv = reject_from_normalized(m, planes[i]);
        let mut j: usize = 0;
        while j < n && !crease
            invariant
                0 <= i < n,
                0 <= j <= n,
                n == planes.len(),
                pv == reject_spec(m, planes@[i as int]),
                bounded(pv, 0x400_0000),
                forall|k: int| 0 <= k < planes.len() ==> bounded(#[trigger] planes[k], UNIT as int),
                crease ==> crease_between(m, planes@),
                !crease ==> forall|b: int|
                    0 <= b < j && b != i ==> #[trigger] dot_spec(
                        reject_spec(m, planes@[i as int]),
                        planes@[b],
                    ) >= 0,
            decreases n - j,
        {
            if j != i && dot(pv, planes[j]) < 0 {
                assert(dot_spec(reject_spec(m, planes@[i as int]), planes@[j as int]) < 0);
                crease = true;
            }
            j += 1;
        }
        if !crease {
            i += 1;
        }
    }
    if crease {
        if n != 2 {
            None
        } else {
            let r0 = reject_from_normalized(m, planes[0]);
            let pv = if dot(r0, planes[1]) < 0 {
                r0
            } else {
                reject_from_normalized(m, planes[1])
            };
            let c = cross(planes[0], planes[1]);
            Some(project_onto_line(pv, c))
        }
    } else {
        Some(reject_from_normalized(m, planes[n - 1]))
    }
}

/// Begins resolving `motion` from `origin`. Zero motion is settled at once
/// with no displacement.
pub fn collide_and_slide(origin: Vec3, motion: Vec3, c: &CollideAndSlideConfig) -> (r:
    CollideAndSlide)
    requires
        c.wf(),
        bounded(motion, MAX_MOTION as int),
    ensures
        r.wf(*c),
        r.began(origin, motion),
{
    let zero = Vec3 { x: 0, y: 0, z: 0 };
    match normalize(motion) {
        None => CollideAndSlide {
            origin,
            motion,
            velocity: zero,
            direction: zero,
            distance: 0,
            planes: Vec::new(),
            slide_target: zero,
            bounces: 0,
            done: true,
            obstacle_hit: false,
        },
        Some((direction, distance)) => CollideAndSlide {
            origin,
            motion,
            velocity: motion,
            direction,
            distance,
            planes: Vec::new(),
            slide_target: zero,
            bounces: 0,
            done: false,
            obstacle_hit: false,
        },
    }
}

/// Every bounce spends one sweep of the budget, so a resolution settles
/// after at most `max_bounces` sweeps.
pub proof fn lemma_bounce_spends_budget(
    s0: CollideAndSlide,
    s1: CollideAndSlide,
    c: CollideAndSlideConfig,
    hit: Option<ShapeHit>,
)
    requires
        s0.wf(c),
        s0.running(c),
        s0.stepped(s1, c, hit),
    ensures
        0 <= c.max_bounces - s1.bounces < c.max_bounces - s0.bounces,
        s1.bounces == c.max_bounces ==> !s1.running(c),
{
}

/// A resolution begun with zero motion asks for no sweep and settles with
/// no displacement and no contact.
pub proof fn lemma_zero_motion_settles(
    s: CollideAndSlide,
    c: CollideAndSlideConfig,
    origin: Vec3,
)
    requires
        s.began(origin, Vec3 { x: 0, y: 0, z: 0 }),
    ensures
        !s.running(c),
        s.slide_target == (Vec3 { x: 0, y: 0, z: 0 }),
        !s.obstacle_hit,
{
}

/// Resolving again, with no motion left, from where a settled resolution
/// put the body yields no further displacement.
pub proof fn lemma_settled_position_is_at_rest(
    s: CollideAndSlide,
    again: CollideAndSlide,
    c: CollideAndSlideConfig,
)
    requires
        s.wf(c),
        !s.running(c),
        again.began(plus_spec(s.origin, s.slide_target), Vec3 { x: 0, y: 0, z: 0 }),
    ensures
        !again.running(c),
        again.slide_target == (Vec3 { x: 0, y: 0, z: 0 }),
        !again.obstacle_hit,
{
    lemma_zero_motion_settles(again, c, plus_spec(s.origin, s.slide_target));
}

/// With nothing in the way, the first sweep finds no obstacle and the whole
/// desired motion is the displacement.
pub proof fn lemma_open_space_moves_fully(
    s0: CollideAndSlide,
    s1: CollideAndSlide,
    c: CollideAndSlideConfig,
    origin: Vec3,
    motion: Vec3,
)
    requires
        c.wf(),
        s0.began(origin, motion),
        s0.running(c),
        s0.stepped(s1, c, None),
    ensures
        !s1.running(c),
        s1.slide_target == motion,
        !s1.obstacle_hit,
{
}

/// Motion that enters both faces of a right-angle corner, with normals along
/// `+x` and `+z`, slides along their crease: along the `y` axis only,
/// keeping its `y` component.
pub proof fn lemma_corner_slides_along_crease(m: Vec3)
    requires
        bounded(m, MAX_MOTION as int),
        m.x < 0,
        m.z < 0,
    ensures
        slide_velocity_spec(
            m,
            seq![Vec3 { x: UNIT, y: 0, z: 0 }, Vec3 { x: 0, y: 0, z: UNIT }],
        ) == Some(Vec3 { x: 0, y: m.y, z: 0 }),
{
    let px = Vec3 { x: UNIT, y: 0, z: 0 };
    let pz = Vec3 { x: 0, y: 0, z: UNIT };
    let planes = seq![px, pz];
    assert(planes[0] == px && planes[1] == pz);
    assert(UNIT == 1000);
    assert(dot_spec(m, px) == m.x * 1000) by (nonlinear_arith)
        requires
            px.x == 1000 && px.y == 0 && px.z == 0,
    ;
    assert(dot_spec(m, pz) == m.z * 1000) by (nonlinear_arith)
        requires
            pz.x == 0 && pz.y == 0 && pz.z == 1000,
    ;
    let r0 = reject_spec(m, px);
    assert(r0 == Vec3 { x: 0, y: m.y, z: m.z });
    assert(dot_spec(r0, pz) == m.z * 1000) by (nonlinear_arith)
        requires
            pz.x == 0 && pz.y == 0 && pz.z == 1000,
            r0.z == m.z,
    ;
    assert(dot_spec(reject_spec(m, planes[0]), planes[1]) < 0);
    assert(crease_between(m, planes));
    let c = cross_spec(px, pz);
    assert(c == Vec3 { x: 0, y: -1000i64, z: 0 });
    assert(dot_spec(c, r0) == -1000 * m.y) by (nonlinear_arith)
        requires
            c.x == 0 && c.y == -1000 && c.z == 0,
            r0.y == m.y,
    ;
    assert(project_spec(r0, c) == Vec3 { x: 0, y: m.y, z: 0 });
}

/// Motion of length `len` along `-x` into a flat wall that faces it, touched
/// after `d` with `skin_width <= d < len`, stops `skin_width` short of the
/// wall: the displacement is `d - skin_width` along `-x`, and the
/// resolution settles there.
pub proof fn lemma_wall_stops_at_skin(
    s0: CollideAndSlide,
    s1: CollideAndSlide,
    c: CollideAndSlideConfig,
    origin: Vec3,
    len: int,
    h: ShapeHit,
)
    requires
        c.wf(),
        0 < len <= MAX_MOTION,
        s0.began(origin, Vec3 { x: (-len) as i64, y: 0, z: 0 }),
        s0.running(c),
        h.normal1 == (Vec3 { x: UNIT, y: 0, z: 0 }),
        c.skin_width <= h.time_of_impact < len,
        s0.stepped(s1, c, Some(h)),
    ensures
        !s1.running(c),
        s1.obstacle_hit,
        s1.slide_target == (Vec3 {
            x: (-(h.time_of_impact - c.skin_width)) as i64,
            y: 0,
            z: 0,
        }),
{
    let m = s0.motion;
    let dist = s0.distance as int;
    assert(UNIT == 1000);
    assert(norm_sq(m) == len * len) by (nonlinear_arith)
        requires
            m.x == -len && m.y == 0 && m.z == 0,
    ;
    assert(dist == len) by (nonlinear_arith)
        requires
            dist * dist <= len * len < (dist + 1) * (dist + 1),
            dist >= 0,
            len > 0,
    ;
    assert((m.x * 1000) / dist == -1000) by (nonlinear_arith)
        requires
            m.x == -len,
            dist == len,
            len > 0,
    ;
    assert(s0.direction == Vec3 { x: -1000i64, y: 0, z: 0 });
    let k = h.time_of_impact - c.skin_width;
    let d = s0.direction;
    assert(d.x * k == -1000 * k && d.y * k == 0 && d.z * k == 0) by (nonlinear_arith)
        requires
            d.x == -1000 && d.y == 0 && d.z == 0,
    ;
    assert((-1000 * k) / 1000 == -k);
    assert(s0.advance_spec(c, Some(h)) == scale_spec(d, k, UNIT as int));
    assert(s0.advance_spec(c, Some(h)) == Vec3 { x: (-k) as i64, y: 0, z: 0 });
    let n = h.normal1;
    assert(dot_spec(m, n) == -1000 * len) by (nonlinear_arith)
        requires
            m.x == -len && m.y == 0 && m.z == 0,
            n.x == 1000 && n.y == 0 && n.z == 0,
    ;
    let dm = dot_spec(m, n);
    assert(n.x * dm == -1000000 * len && n.y * dm == 0 && n.z * dm == 0) by (nonlinear_arith)
        requires
            n.x == 1000 && n.y == 0 && n.z == 0,
            dm == -1000 * len,
    ;
    assert((-1000000 * len) / 1000000 == -len);
    assert(reject_spec(m, n) == Vec3 { x: 0, y: 0, z: 0 });
    let planes = s0.kept_planes(c, h).push(n);
    if s0.kept_planes(c, h).len() < c.max_clip_planes {
        assert(planes =~= seq![n]);
        assert(!crease_between(m, planes));
        let pv = reject_spec(m, n);
        assert(pv.x * m.x + pv.y * m.y + pv.z * m.z == 0) by (nonlinear_arith)
            requires
                pv.x == 0 && pv.y == 0 && pv.z == 0,
        ;
        assert(slide_velocity_spec(m, planes) == Some(pv));
    }
}

} // verus!
