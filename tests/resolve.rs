use collide_slide::fixed::{cross, div_floor, isqrt, normalize, reject_from_normalized, Vec3};
use collide_slide::ground::{floor_probe, is_on_floor, snap_probe, snap_to_floor};
use collide_slide::slide::{collide_and_slide, CollideAndSlideConfig, ShapeHit, SweepRequest};

fn v(x: i64, y: i64, z: i64) -> Vec3 {
    Vec3 { x, y, z }
}

fn config() -> CollideAndSlideConfig {
    CollideAndSlideConfig {
        up_direction: v(0, 1000, 0),
        skin_width: 50,
        max_slope_cos: 707,
        floor_snap_length: 400,
        constant_speed: false,
        max_bounces: 4,
        max_clip_planes: 5,
    }
}

fn hit(toi: i64, normal: Vec3) -> Option<ShapeHit> {
    Some(ShapeHit { time_of_impact: toi, normal1: normal, normal2: v(-normal.x, -normal.y, -normal.z) })
}

#[test]
fn zero_motion_gives_no_displacement() {
    let c = config();
    let s = collide_and_slide(v(10, 20, 30), v(0, 0, 0), &c);
    assert_eq!(s.next_sweep(&c), None);
    let r = s.result();
    assert_eq!(r.slide_target, v(0, 0, 0));
    assert!(!r.obstacle_hit);
}

#[test]
fn open_space_moves_the_whole_motion() {
    let c = config();
    let motion = v(1234, -56, 789);
    let mut s = collide_and_slide(v(0, 0, 0), motion, &c);
    let q = s.next_sweep(&c).unwrap();
    assert_eq!(q.origin, v(0, 0, 0));
    s.apply_hit(&c, None);
    assert_eq!(s.next_sweep(&c), None);
    let r = s.result();
    assert_eq!(r.slide_target, motion);
    assert!(!r.obstacle_hit);
}

#[test]
fn first_sweep_request_is_normalized_motion_plus_skin() {
    let c = config();
    let s = collide_and_slide(v(1, 2, 3), v(0, 0, -5000), &c);
    assert_eq!(
        s.next_sweep(&c),
        Some(SweepRequest { origin: v(1, 2, 3), direction: v(0, 0, -1000), max_distance: 5050 })
    );
}

#[test]
fn wall_stops_body_a_skin_short() {
    let c = config();
    let mut s = collide_and_slide(v(0, 0, 0), v(-5000, 0, 0), &c);
    s.apply_hit(&c, hit(3000, v(1000, 0, 0)));
    assert_eq!(s.next_sweep(&c), None);
    let r = s.result();
    assert_eq!(r.slide_target, v(-2950, 0, 0));
    assert!(r.obstacle_hit);
}

#[test]
fn obstacle_inside_skin_moves_up_to_the_margin() {
    let c = config();
    let mut s = collide_and_slide(v(0, 0, 0), v(0, 0, 1000), &c);
    s.apply_hit(&c, hit(1020, v(0, 0, -1000)));
    assert_eq!(s.next_sweep(&c), None);
    assert_eq!(s.result().slide_target, v(0, 0, 970));

    let mut s = collide_and_slide(v(0, 0, 0), v(0, 0, 30), &c);
    s.apply_hit(&c, hit(40, v(0, 0, -1000)));
    assert_eq!(s.result().slide_target, v(0, 0, 0));
}

#[test]
fn slope_redirects_motion_along_the_surface() {
    let c = config();
    let mut s = collide_and_slide(v(0, 0, 0), v(-4000, 0, 3000), &c);
    // The wall facing +x is reached after 2050: 2000 of travel.
    s.apply_hit(&c, hit(2050, v(1000, 0, 0)));
    // Direction (-800, 0, 600): 2000 of travel is (-1600, 0, 1200).
    assert_eq!(s.result().slide_target, v(-1600, 0, 1200));
    assert_eq!(s.velocity, v(0, 0, 3000));
    let q = s.next_sweep(&c).unwrap();
    assert_eq!(q.direction, v(0, 0, 1000));
    assert_eq!(q.max_distance, 3050);
    s.apply_hit(&c, None);
    assert_eq!(s.result().slide_target, v(-1600, 0, 4200));
    assert!(s.result().obstacle_hit);
}

#[test]
fn corner_slides_along_the_crease() {
    let c = config();
    let mut s = collide_and_slide(v(0, 0, 0), v(-3000, 700, -4000), &c);
    s.apply_hit(&c, hit(55, v(1000, 0, 0)));
    assert_eq!(s.result().slide_target, v(-3, 0, -4));
    assert_eq!(s.velocity, v(0, 700, -4000));
    s.apply_hit(&c, hit(50, v(0, 0, 1000)));
    assert_eq!(s.planes.len(), 2);
    assert_eq!(s.velocity, v(0, 700, 0));
    let q = s.next_sweep(&c).unwrap();
    assert_eq!(q.direction, v(0, 1000, 0));
    assert_eq!(q.max_distance, 750);
    s.apply_hit(&c, None);
    assert_eq!(s.result().slide_target, v(-3, 700, -4));
}

#[test]
fn crease_of_three_planes_stops() {
    let c = config();
    let mut s = collide_and_slide(v(0, 0, 0), v(-3000, -700, -4000), &c);
    s.apply_hit(&c, hit(55, v(1000, 0, 0)));
    s.apply_hit(&c, hit(50, v(0, 0, 1000)));
    assert_eq!(s.velocity, v(0, -700, 0));
    s.apply_hit(&c, hit(50, v(0, 1000, 0)));
    assert_eq!(s.next_sweep(&c), None);
    assert_eq!(s.planes.len(), 3);
}

#[test]
fn far_advance_releases_older_planes() {
    let c = config();
    let mut s = collide_and_slide(v(0, 0, 0), v(-3000, 700, -4000), &c);
    s.apply_hit(&c, hit(55, v(1000, 0, 0)));
    s.apply_hit(&c, hit(1050, v(0, 0, 1000)));
    assert_eq!(s.planes, vec![v(0, 0, 1000)]);
}

#[test]
fn full_plane_set_gives_up() {
    let mut c = config();
    c.max_clip_planes = 0;
    let mut s = collide_and_slide(v(0, 0, 0), v(-5000, 0, 0), &c);
    s.apply_hit(&c, hit(1000, v(0, 1000, 0)));
    assert_eq!(s.next_sweep(&c), None);
    assert_eq!(s.result().slide_target, v(-950, 0, 0));
}

#[test]
fn exhausted_budget_stops() {
    let mut c = config();
    c.max_bounces = 0;
    let s = collide_and_slide(v(0, 0, 0), v(500, 0, 0), &c);
    assert_eq!(s.next_sweep(&c), None);
    assert_eq!(s.result().slide_target, v(0, 0, 0));
    assert!(!s.result().obstacle_hit);

    c.max_bounces = 1;
    let mut s = collide_and_slide(v(0, 0, 0), v(-4000, 0, 3000), &c);
    s.apply_hit(&c, hit(2050, v(1000, 0, 0)));
    assert_eq!(s.next_sweep(&c), None);
    assert_eq!(s.result().slide_target, v(-1600, 0, 1200));
}

#[test]
fn settled_position_stays_at_rest() {
    let c = config();
    let mut s = collide_and_slide(v(100, 0, 0), v(-5000, 0, 0), &c);
    s.apply_hit(&c, hit(3000, v(1000, 0, 0)));
    let r = s.result();
    let at = v(100 + r.slide_target.x, r.slide_target.y, r.slide_target.z);
    let again = collide_and_slide(at, v(0, 0, 0), &c);
    assert_eq!(again.next_sweep(&c), None);
    assert_eq!(again.result().slide_target, v(0, 0, 0));
    assert!(!again.result().obstacle_hit);
}

#[test]
fn ground_detection_by_slope() {
    let up = v(0, 1000, 0);
    assert!(is_on_floor(hit(100, v(0, 1000, 0)), up, 707));
    assert!(is_on_floor(hit(100, v(0, 800, 600)), up, 707));
    assert!(!is_on_floor(hit(100, v(1000, 0, 0)), up, 707));
    assert!(!is_on_floor(hit(100, v(0, 600, 800)), up, 707));
    assert!(!is_on_floor(None, up, 707));
}

#[test]
fn ground_probe_points_against_up() {
    assert_eq!(
        floor_probe(v(5, 6, 7), v(0, 1000, 0)),
        SweepRequest { origin: v(5, 6, 7), direction: v(0, -1000, 0), max_distance: 200 }
    );
}

#[test]
fn floor_snap_without_floor_is_zero() {
    assert_eq!(snap_to_floor(None, 400), v(0, 0, 0));
    assert_eq!(
        snap_probe(v(1, 2, 3), 400),
        SweepRequest { origin: v(1, 2, 3), direction: v(0, -1000, 0), max_distance: 450 }
    );
}

#[test]
fn floor_snap_on_flat_and_sloped_floor() {
    let flat = Some(ShapeHit { time_of_impact: 300, normal1: v(0, 1000, 0), normal2: v(0, -1000, 0) });
    assert_eq!(snap_to_floor(flat, 400), v(0, -250, 0));
    let slope = Some(ShapeHit { time_of_impact: 300, normal1: v(0, 707, -707), normal2: v(0, -707, 707) });
    assert_eq!(snap_to_floor(slope, 400), v(0, -265, 0));
    let touching = Some(ShapeHit { time_of_impact: 0, normal1: v(0, 1000, 0), normal2: v(0, -1000, 0) });
    let up = snap_to_floor(touching, 400);
    assert_eq!(up, v(0, 50, 0));
    let far = Some(ShapeHit { time_of_impact: 450, normal1: v(0, 1000, 0), normal2: v(0, -1000, 0) });
    assert!(snap_to_floor(far, 400).y.abs() <= 450);
}

#[test]
fn fixed_point_helpers() {
    assert_eq!(div_floor(-7, 2), -4);
    assert_eq!(div_floor(7, 2), 3);
    assert_eq!(div_floor(-8, 2), -4);
    assert_eq!(isqrt(25490000), 5048);
    assert_eq!(isqrt(0), 0);
    assert_eq!(isqrt(1), 1);
    assert_eq!(normalize(v(0, 0, 0)), None);
    assert_eq!(normalize(v(-3000, 700, -4000)), Some((v(-595, 138, -793), 5048)));
    assert_eq!(cross(v(1000, 0, 0), v(0, 0, 1000)), v(0, -1000, 0));
    assert_eq!(reject_from_normalized(v(-3000, 700, -4000), v(1000, 0, 0)), v(0, 700, -4000));
}
