use lightborne::crystal::{Crystal, CrystalColor, CrystalToggleEvent};
use lightborne::activatable::Activatable;
use lightborne::geometry::Vec2;
use lightborne::light::{GroupLabel, LightColor, LIGHT_SPEED};
use lightborne::segments::{hidden, LightSegmentCache, SegmentSlot};
use lightborne::sensor::LightSensor;
use lightborne::sources::{LightSources, PlayerLightInventory};
use lightborne::trace::{RayCast, RayHit};
use lightborne::world::{LightWorld, ResetLevel};

fn red7() -> CrystalColor {
    CrystalColor { color: LightColor::Red, id: 7 }
}

/// A sensor (entity 100) on the x axis at x = 10, then open space.
fn sensor_ahead(q: &RayCast) -> Option<RayHit> {
    if q.excluded.contains(&100) || q.dir.y != 0 || q.dir.x <= 0 || q.origin.x >= 10 {
        return None;
    }
    let t = (10 - q.origin.x) / q.dir.x;
    if t > q.max_toi {
        return None;
    }
    Some(RayHit { entity: 100, toi: t, normal: Vec2::new(-1, 0) })
}

#[test]
fn segment_slots_follow_the_polyline() {
    let mut cache = LightSegmentCache::new();
    let pts = vec![Vec2::new(0, 0), Vec2::new(10, 0), Vec2::new(5, 0)];
    cache.write(LightColor::Green, &pts);
    let green = cache.slots_of(LightColor::Green);
    assert_eq!(green.len(), 2);
    assert_eq!(green[0], SegmentSlot { visible: true, start: pts[0], end: pts[1], collider: None });
    assert_eq!(green[1], SegmentSlot { visible: true, start: pts[1], end: pts[2], collider: None });
    cache.write(LightColor::Green, &vec![Vec2::new(1, 1), Vec2::new(2, 2)]);
    let green = cache.slots_of(LightColor::Green);
    assert_eq!(green[0], SegmentSlot { visible: true, start: Vec2::new(1, 1), end: Vec2::new(2, 2), collider: None });
    assert_eq!(green[1], hidden(LightColor::Green));
    let red = cache.slots_of(LightColor::Red);
    assert_eq!(red.len(), 3);
    assert!(red.iter().all(|s| *s == hidden(LightColor::Red)));
    // white beams are colliders themselves
    cache.write(LightColor::White, &vec![Vec2::new(0, 0), Vec2::new(0, 4)]);
    let white = cache.slots_of(LightColor::White);
    let groups = white[0].collider.unwrap();
    assert_eq!(groups.memberships, GroupLabel::WHITE_RAY);
    assert_eq!(
        groups.filters,
        GroupLabel::TERRAIN | GroupLabel::LIGHT_SENSOR | GroupLabel::LIGHT_RAY | GroupLabel::BLUE_RAY
    );
    assert!(white[0].visible);
    assert!(!white[1].visible && white[1].collider == Some(groups));
    cache.hide_all();
    assert!(cache.slots_of(LightColor::Green).iter().all(|s| !s.visible));
}

#[test]
fn one_source_per_color() {
    let mut sources = LightSources::new();
    assert!(sources.shoot_light(Vec2::new(0, 0), Vec2::new(1, 0), LightColor::Red));
    assert!(!sources.shoot_light(Vec2::new(5, 5), Vec2::new(0, 1), LightColor::Red));
    assert!(!sources.shoot_light(Vec2::new(5, 5), Vec2::new(0, 0), LightColor::Green));
    assert!(sources.shoot_light(Vec2::new(5, 5), Vec2::new(0, 1), LightColor::Green));
    assert_eq!(sources.len(), 2);
    assert_eq!(sources.get(0).start_pos, Vec2::new(0, 0));
    assert!(sources.has_source(LightColor::Green));
    assert!(!sources.has_source(LightColor::White));
    sources.tick_light_sources();
    assert_eq!(sources.get(0).time_traveled, LIGHT_SPEED);
    assert_eq!(sources.get(1).time_traveled, LIGHT_SPEED);
    sources.cleanup_light_sources();
    assert_eq!(sources.len(), 0);
}

#[test]
fn color_keys() {
    let mut inv = PlayerLightInventory::new();
    assert_eq!(inv.current_color, LightColor::Green);
    inv.handle_color_switch(2);
    assert_eq!(inv.current_color, LightColor::Red);
    inv.handle_color_switch(9);
    assert_eq!(inv.current_color, LightColor::Red);
    inv.handle_color_switch(3);
    assert_eq!(inv.current_color, LightColor::White);
    inv.handle_color_switch(4);
    assert_eq!(inv.current_color, LightColor::Blue);
    inv.handle_color_switch(1);
    assert_eq!(inv.current_color, LightColor::Green);
}

fn level() -> LightWorld {
    let mut w = LightWorld::new();
    w.sensors.add(100, LightSensor::new(red7()));
    w.sensors.add(101, LightSensor::new(red7()));
    assert!(w.crystals.register(1, Crystal::from_cell(4, 7, 9).unwrap()));
    assert!(w.crystals.register(2, Crystal::from_cell(4, 7, 9).unwrap()));
    assert!(w.crystals.register(3, Crystal::from_cell(6, 7, 9).unwrap()));
    assert!(w.activatables.setup_activatables(50, Activatable { id: 1, init_active: false }));
    w
}

#[test]
fn shared_group_toggles_both_crystals_in_one_tick() {
    let mut w = level();
    let mut events_per_frame = Vec::new();
    for _ in 0..6 {
        let ev = w.update_light_sensors(&vec![100], 50);
        events_per_frame.push(ev.len());
        if ev.is_empty() {
            assert!(!w.crystals.get(1).unwrap().active);
            assert!(!w.crystals.get(2).unwrap().active);
        }
    }
    assert_eq!(events_per_frame, vec![0, 0, 0, 0, 0, 1]);
    assert!(w.crystals.get(1).unwrap().active);
    assert!(w.crystals.get(2).unwrap().active);
    assert!(w.crystals.get(1).unwrap().has_collider);
    assert!(!w.crystals.get(3).unwrap().active);
}

#[test]
fn beam_reaching_a_sensor_toggles_its_group() {
    let mut w = level();
    assert!(w.fire_light(Vec2::new(0, 0), Vec2::new(1, 0), LightColor::Red));
    let mut toggles: Vec<CrystalToggleEvent> = Vec::new();
    for _ in 0..40 {
        w.fixed_tick();
        toggles.extend(w.update(&sensor_ahead, 50));
    }
    assert_eq!(toggles, vec![CrystalToggleEvent { color: red7() }]);
    assert!(w.crystals.get(1).unwrap().active);
    assert!(w.crystals.get(2).unwrap().active);
    let red = w.segments.slots_of(LightColor::Red);
    assert_eq!(red[0].start, Vec2::new(0, 0));
    assert_eq!(red[0].end, Vec2::new(10, 0));
    assert!(red[1].visible);
    assert!(!red[2].visible);
    assert_eq!(w.sources.get(0).num_bounces, 1);
}

#[test]
fn simulate_reports_struck_colliders() {
    let mut w = level();
    assert!(w.fire_light(Vec2::new(0, 0), Vec2::new(1, 0), LightColor::Green));
    w.fixed_tick();
    // 10 units: the beam just reaches the sensor
    assert_eq!(w.simulate_light_sources(&sensor_ahead), vec![100]);
    let g = w.segments.slots_of(LightColor::Green);
    assert_eq!(g[0], SegmentSlot { visible: true, start: Vec2::new(0, 0), end: Vec2::new(10, 0), collider: None });
    // red has no beam: its slots stay hidden
    assert!(w.segments.slots_of(LightColor::Red).iter().all(|s| !s.visible));
}

/// A wall (entity 7) at x = 5 facing the source, and a sensor (entity 100) at x = -5 behind it.
fn wall_then_sensor(q: &RayCast) -> Option<RayHit> {
    if q.dir.y != 0 {
        return None;
    }
    let (entity, at, normal) = if q.dir.x > 0 { (7, 5, -1) } else { (100, -5, 1) };
    if q.excluded.contains(&entity) {
        return None;
    }
    let t = (at - q.origin.x) / q.dir.x;
    if t < 0 || t > q.max_toi {
        return None;
    }
    Some(RayHit { entity, toi: t, normal: Vec2::new(normal, 0) })
}

#[test]
fn only_sensors_are_reported_as_hit() {
    let mut w = level();
    assert!(w.fire_light(Vec2::new(0, 0), Vec2::new(1, 0), LightColor::Red));
    for _ in 0..2 {
        w.fixed_tick();
    }
    // 20 units: off the wall at x = 5, back to the sensor at x = -5, then 5 more
    assert_eq!(w.simulate_light_sources(&wall_then_sensor), vec![100]);
    let red = w.segments.slots_of(LightColor::Red);
    assert_eq!(red[0].end, Vec2::new(5, 0));
    assert_eq!(red[1].end, Vec2::new(-5, 0));
    assert_eq!(red[2].end, Vec2::new(0, 0));
    assert_eq!(w.sources.get(0).num_bounces, 2);
}

#[test]
fn level_reset_clears_everything() {
    let mut w = level();
    assert!(w.fire_light(Vec2::new(0, 0), Vec2::new(1, 0), LightColor::Red));
    for _ in 0..8 {
        w.fixed_tick();
        w.update(&sensor_ahead, 50);
    }
    w.activatables.switch_group(1);
    w.crystals.toggle(CrystalColor { color: LightColor::Green, id: 7 });
    assert!(w.crystals.get(1).unwrap().active);
    w.reset_level(ResetLevel::Respawn);
    assert_eq!(w.sources.len(), 0);
    for c in [LightColor::Green, LightColor::Red, LightColor::White, LightColor::Blue] {
        assert!(w.segments.slots_of(c).iter().all(|s| *s == hidden(c)));
    }
    for i in 0..w.sensors.len() {
        let s = w.sensors.get(i).sensor;
        assert!(!s.was_hit);
        assert!(s.activation_timer.paused);
        assert_eq!(s.activation_timer.elapsed, 0);
        assert_eq!(s.cumulative_exposure, 0);
    }
    for e in 1..=3 {
        let c = w.crystals.get(e).unwrap();
        assert_eq!(c.active, c.init_active);
    }
    assert!(!w.activatables.is_activated(50));
    // a new beam can be fired after the reset
    assert!(w.fire_light(Vec2::new(0, 0), Vec2::new(1, 0), LightColor::Red));
    w.reset_level(ResetLevel::Switching);
    assert_eq!(w.sources.len(), 0);
}
