use lightborne::geometry::Vec2;
use lightborne::light::{ray_groups, GroupLabel, LightColor, LightRaySource, LIGHT_SPEED, MAX_DISTANCE};
use lightborne::sources::LightSources;
use lightborne::trace::{preview_light_path, simulate_ray, RayCast, RayHit, Tracer};

/// An axis-aligned mirror line: `x == at` when `vertical`, else `y == at`.
struct Mirror {
    entity: u64,
    vertical: bool,
    at: i64,
    normal: Vec2,
}

/// Nearest mirror hit along the cast, skipping excluded ones, with exact integer travel.
fn cast_against(mirrors: &[Mirror], q: &RayCast) -> Option<RayHit> {
    let mut best: Option<RayHit> = None;
    for m in mirrors {
        if q.excluded.contains(&m.entity) {
            continue;
        }
        let (o, d) = if m.vertical { (q.origin.x, q.dir.x) } else { (q.origin.y, q.dir.y) };
        if d == 0 || (m.at - o) % d != 0 {
            continue;
        }
        let t = (m.at - o) / d;
        if t < 0 || t > q.max_toi {
            continue;
        }
        if best.map_or(true, |b| t < b.toi) {
            best = Some(RayHit { entity: m.entity, toi: t, normal: m.normal });
        }
    }
    best
}

fn wall_at_ten() -> Vec<Mirror> {
    vec![Mirror { entity: 1, vertical: true, at: 10, normal: Vec2::new(-1, 0) }]
}

fn zigzag() -> Vec<Mirror> {
    vec![
        Mirror { entity: 1, vertical: true, at: 10, normal: Vec2::new(-1, 0) },
        Mirror { entity: 2, vertical: false, at: 20, normal: Vec2::new(0, -1) },
        Mirror { entity: 3, vertical: true, at: -10, normal: Vec2::new(1, 0) },
        Mirror { entity: 4, vertical: false, at: -20, normal: Vec2::new(0, 1) },
        Mirror { entity: 5, vertical: true, at: 30, normal: Vec2::new(-1, 0) },
    ]
}

fn source(color: LightColor, dir: Vec2, traveled: i64) -> LightRaySource {
    let mut s = LightRaySource::new(Vec2::new(0, 0), dir, color);
    s.time_traveled = traveled;
    s
}

#[test]
fn reflect_off_wall_reverses_normal_component() {
    let d = Vec2::new(3, -4);
    let r = d.reflect(Vec2::new(0, 1));
    assert_eq!(r, Vec2::new(3, 4));
    assert_eq!(r.x * r.x + r.y * r.y, d.x * d.x + d.y * d.y);
    // d'.n == -(d.n)
    assert_eq!(r.y, -d.y);
    assert_eq!(Vec2::new(1, 0).reflect(Vec2::new(-1, 0)), Vec2::new(-1, 0));
    assert_eq!(Vec2::new(2, 5).reflect(Vec2::new(1, 0)), Vec2::new(-2, 5));
}

#[test]
fn wall_scenario_reflects_back_with_distance_left() {
    let mirrors = wall_at_ten();
    let src = source(LightColor::Green, Vec2::new(1, 0), 15);
    // step by step: after the hit, 5 of the 15 units are left
    let mut t = Tracer::new(&src);
    let q = t.query();
    assert_eq!(q.max_toi, 15);
    t.advance(cast_against(&mirrors, &q));
    assert_eq!(t.remaining, 5);
    assert_eq!(t.points, vec![Vec2::new(0, 0), Vec2::new(10, 0)]);
    assert_eq!(t.dir, Vec2::new(-1, 0));
    assert_eq!(t.excluded, vec![1]);
    // the whole trace: the beam comes back for the 5 units left
    let done = simulate_ray(&src, &|q: &RayCast| cast_against(&mirrors, q));
    assert!(done.done);
    assert_eq!(done.points, vec![Vec2::new(0, 0), Vec2::new(10, 0), Vec2::new(5, 0)]);
    assert_eq!(done.lengths, vec![10, 5]);
    assert_eq!(done.remaining, 0);
    assert_eq!(done.struck, vec![1]);
}

#[test]
fn open_space_runs_out_the_distance() {
    let src = source(LightColor::White, Vec2::new(2, -1), 7);
    let t = simulate_ray(&src, &|_q: &RayCast| None);
    assert_eq!(t.points, vec![Vec2::new(0, 0), Vec2::new(14, -7)]);
    assert_eq!(t.lengths, vec![7]);
    assert_eq!(t.remaining, 0);
    assert!(t.struck.is_empty());
}

#[test]
fn red_beam_stops_after_its_bounce_budget() {
    let mirrors = zigzag();
    let src = source(LightColor::Red, Vec2::new(1, 1), 1000);
    let t = simulate_ray(&src, &|q: &RayCast| cast_against(&mirrors, q));
    assert_eq!(
        t.points,
        vec![Vec2::new(0, 0), Vec2::new(10, 10), Vec2::new(0, 20), Vec2::new(-10, 10)]
    );
    assert_eq!(t.points.len() - 1, LightColor::Red.num_bounces() + 1);
    assert_eq!(t.struck, vec![1, 2, 3]);
    assert_eq!(t.lengths.iter().sum::<i64>(), 30);
    assert_eq!(t.remaining, 970);
    assert_eq!(t.casts_left, 0);
}

#[test]
fn green_beam_has_one_bounce() {
    let mirrors = zigzag();
    let src = source(LightColor::Green, Vec2::new(1, 1), 1000);
    let t = simulate_ray(&src, &|q: &RayCast| cast_against(&mirrors, q));
    assert_eq!(t.points, vec![Vec2::new(0, 0), Vec2::new(10, 10), Vec2::new(0, 20)]);
    assert_eq!(t.lengths.iter().sum::<i64>() + t.remaining, 1000);
}

#[test]
fn distance_used_matches_segments() {
    let mirrors = zigzag();
    let src = source(LightColor::Red, Vec2::new(1, 1), 25);
    let t = simulate_ray(&src, &|q: &RayCast| cast_against(&mirrors, q));
    assert_eq!(t.points, vec![Vec2::new(0, 0), Vec2::new(10, 10), Vec2::new(0, 20), Vec2::new(-5, 15)]);
    assert_eq!(t.lengths, vec![10, 10, 5]);
    assert_eq!(t.remaining, 0);
}

#[test]
fn touching_hit_ends_the_trace() {
    let src = source(LightColor::Green, Vec2::new(1, 0), 50);
    let t = simulate_ray(&src, &|_q: &RayCast| {
        Some(RayHit { entity: 9, toi: 0, normal: Vec2::new(-1, 0) })
    });
    assert!(t.done);
    assert_eq!(t.points, vec![Vec2::new(0, 0)]);
    assert_eq!(t.remaining, 50);
    assert!(t.struck.is_empty());
}

#[test]
fn hit_beyond_reach_or_odd_normal_ends_the_trace() {
    let src = source(LightColor::Green, Vec2::new(1, 0), 50);
    let far = simulate_ray(&src, &|_q: &RayCast| {
        Some(RayHit { entity: 9, toi: 51, normal: Vec2::new(-1, 0) })
    });
    assert_eq!(far.points.len(), 1);
    let slanted = simulate_ray(&src, &|_q: &RayCast| {
        Some(RayHit { entity: 9, toi: 5, normal: Vec2::new(1, 1) })
    });
    assert_eq!(slanted.points.len(), 1);
}

#[test]
fn casts_use_color_groups() {
    let src = source(LightColor::White, Vec2::new(1, 0), 5);
    let t = Tracer::new(&src);
    let q = t.query();
    assert_eq!(q.groups.memberships, GroupLabel::WHITE_RAY);
    assert_eq!(q.groups.filters, GroupLabel::TERRAIN | GroupLabel::LIGHT_SENSOR);
    let g = ray_groups(LightColor::Green);
    assert_eq!(g.memberships, GroupLabel::LIGHT_RAY);
    assert_eq!(g.filters, GroupLabel::TERRAIN | GroupLabel::LIGHT_SENSOR | GroupLabel::WHITE_RAY);
    let b = ray_groups(LightColor::Blue);
    assert_eq!(b.memberships, GroupLabel::BLUE_RAY);
    assert_eq!(b.filters, GroupLabel::TERRAIN | GroupLabel::LIGHT_SENSOR | GroupLabel::WHITE_RAY);
}

#[test]
fn bounce_budgets() {
    assert_eq!(LightColor::Red.num_bounces(), 2);
    assert_eq!(LightColor::Green.num_bounces(), 1);
    assert_eq!(LightColor::White.num_bounces(), 1);
    assert_eq!(LightColor::Blue.num_bounces(), 1);
}

#[test]
fn preview_follows_the_same_reflections() {
    let mirrors = zigzag();
    let mut sources = LightSources::new();
    let p = preview_light_path(&sources, Vec2::new(0, 0), Vec2::new(1, 1), LightColor::Green, &|q: &RayCast| {
        cast_against(&mirrors, q)
    });
    assert_eq!(p, Some(vec![Vec2::new(0, 0), Vec2::new(10, 10), Vec2::new(0, 20)]));
    // nothing is drawn past the last surface hit
    let one = preview_light_path(&sources, Vec2::new(0, 0), Vec2::new(1, 0), LightColor::Green, &|q: &RayCast| {
        cast_against(&wall_at_ten(), q)
    });
    assert_eq!(one, Some(vec![Vec2::new(0, 0), Vec2::new(10, 0)]));
    let open = preview_light_path(&sources, Vec2::new(3, 3), Vec2::new(1, 0), LightColor::Red, &|_q: &RayCast| None);
    assert_eq!(open, Some(vec![Vec2::new(3, 3)]));
    let none = preview_light_path(&sources, Vec2::new(0, 0), Vec2::new(0, 0), LightColor::Green, &|_q: &RayCast| None);
    assert_eq!(none, None);
    // no preview while a beam of that color is in flight
    assert!(sources.shoot_light(Vec2::new(0, 0), Vec2::new(1, 0), LightColor::Green));
    let busy = preview_light_path(&sources, Vec2::new(0, 0), Vec2::new(1, 1), LightColor::Green, &|q: &RayCast| {
        cast_against(&mirrors, q)
    });
    assert_eq!(busy, None);
}

#[test]
fn source_tick_grows_and_caps() {
    let mut s = source(LightColor::Red, Vec2::new(1, 0), 0);
    s.tick();
    assert_eq!(s.time_traveled, LIGHT_SPEED);
    s.tick();
    assert_eq!(s.time_traveled, 20);
    s.time_traveled = MAX_DISTANCE - 3;
    s.tick();
    assert_eq!(s.time_traveled, MAX_DISTANCE);
}
