use lightborne::activatable::{
    init_activatable, init_light_sensor, Activatable, ActivatableCache, ConfigError,
    GroupTriggeredEvent,
};
use lightborne::crystal::{
    crystal_color, is_crystal_active, Crystal, CrystalCache, CrystalColor, CrystalToggleEvent,
    CRYSTAL_INDEX_OFFSET,
};
use lightborne::light::{GroupLabel, LightColor};
use lightborne::sensor::{LightSensor, LightSensors, Timer, DEFAULT_ACTIVATION_MS};

fn key(color: LightColor, id: i32) -> CrystalColor {
    CrystalColor { color, id }
}

/// Runs `frames` frames of `dt` ms with the sensor hit or not; counts the triggers.
fn run(sensor: &mut LightSensor, hit: bool, frames: usize, dt: u64) -> usize {
    let mut fired = 0;
    for _ in 0..frames {
        if sensor.update(hit, dt) {
            fired += 1;
        }
    }
    fired
}

#[test]
fn exposure_of_exactly_the_duration_triggers_once() {
    let mut s = LightSensor::new(key(LightColor::Red, 7));
    assert_eq!(run(&mut s, true, 5, 60), 1);
    assert!(s.activation_timer.finished);
}

#[test]
fn long_exposure_still_triggers_once() {
    let mut s = LightSensor::new(key(LightColor::Red, 7));
    assert_eq!(run(&mut s, true, 60, 50), 1);
    assert_eq!(s.cumulative_exposure, 3000);
}

#[test]
fn release_before_duration_then_full_exposure() {
    let mut s = LightSensor::new(key(LightColor::Green, 1));
    assert_eq!(run(&mut s, true, 5, 50), 0);
    assert_eq!(s.activation_timer.elapsed, 250);
    // release: the timer stops at zero and stays there
    assert!(!s.update(false, 50));
    assert_eq!(s.activation_timer.elapsed, 0);
    assert!(s.activation_timer.paused);
    assert_eq!(run(&mut s, false, 20, 50), 0);
    // hit again for the full duration
    let mut fired_at = Vec::new();
    for frame in 0..6 {
        if s.update(true, 50) {
            fired_at.push(frame);
        }
    }
    assert_eq!(fired_at, vec![5]);
    assert_eq!(s.cumulative_exposure, 550);
}

#[test]
fn released_sensor_rearms() {
    let mut s = LightSensor::new(key(LightColor::Green, 1));
    assert_eq!(run(&mut s, true, 10, 100), 1);
    assert!(!s.update(false, 100));
    assert_eq!(run(&mut s, true, 3, 100), 1);
}

#[test]
fn timer_semantics() {
    let mut t = Timer::new(100);
    assert!(t.paused);
    t.tick(500);
    assert_eq!(t.elapsed, 0);
    t.unpause();
    t.tick(60);
    assert!(!t.just_finished);
    t.tick(60);
    assert!(t.just_finished && t.finished);
    assert_eq!(t.elapsed, 100);
    t.tick(60);
    assert!(!t.just_finished && t.finished);
    t.reset();
    assert_eq!(t.elapsed, 0);
    assert!(!t.finished);
    assert!(!t.paused);
}

#[test]
fn sensors_in_a_table_report_their_groups() {
    let mut sensors = LightSensors::new();
    sensors.add(100, LightSensor::new(key(LightColor::Red, 7)));
    sensors.add(101, LightSensor::new(key(LightColor::Green, 2)));
    let mut all = Vec::new();
    for _ in 0..3 {
        all.extend(sensors.update_light_sensors(&vec![100, 101], 100));
    }
    assert_eq!(
        all,
        vec![
            CrystalToggleEvent { color: key(LightColor::Red, 7) },
            CrystalToggleEvent { color: key(LightColor::Green, 2) },
        ]
    );
    // only one sensor hit
    let mut other = LightSensors::new();
    other.add(5, LightSensor::new(key(LightColor::White, 0)));
    other.add(6, LightSensor::new(key(LightColor::White, 1)));
    let mut evs = Vec::new();
    for _ in 0..3 {
        evs.extend(other.update_light_sensors(&vec![6, 42], 100));
    }
    assert_eq!(evs, vec![CrystalToggleEvent { color: key(LightColor::White, 1) }]);
    assert!(!other.get(0).sensor.was_hit);
    assert!(other.get(1).sensor.was_hit);
    other.reset_light_sensors();
    assert!(!other.get(1).sensor.was_hit);
    assert_eq!(other.get(1).sensor.cumulative_exposure, 0);
    assert!(other.get(1).sensor.activation_timer.paused);
}

#[test]
fn sensor_defaults() {
    let s = LightSensor::new(key(LightColor::Blue, 3));
    assert_eq!(s.activation_timer.duration, DEFAULT_ACTIVATION_MS);
    assert_eq!(DEFAULT_ACTIVATION_MS, 300);
    assert!(!s.was_hit);
    let custom = LightSensor::with_activation_duration(key(LightColor::Blue, 3), 500);
    assert_eq!(custom.activation_timer.duration, 500);
}

#[test]
fn crystal_cells() {
    assert!(is_crystal_active(3));
    assert!(!is_crystal_active(4));
    assert!(is_crystal_active(9));
    assert!(!is_crystal_active(10));
    assert_eq!(crystal_color(3), LightColor::Red);
    assert_eq!(crystal_color(6), LightColor::Green);
    assert_eq!(crystal_color(7), LightColor::White);
    assert_eq!(crystal_color(10), LightColor::Blue);
    let c = Crystal::from_cell(5, 4, 0).unwrap();
    assert_eq!(c.color, key(LightColor::Green, 4));
    assert!(c.active && c.init_active && c.has_collider);
    let off = Crystal::from_cell(6, 4, 7).unwrap();
    assert!(!off.active && !off.has_collider);
    assert_eq!(c.groups, None);
    let blue = Crystal::from_cell(9, 1, 0).unwrap();
    let g = blue.groups.unwrap();
    assert_eq!(g.memberships, GroupLabel::TERRAIN);
    assert_eq!(g.filters, GroupLabel::ALL & !GroupLabel::BLUE_RAY);
    assert_eq!(Crystal::from_cell(2, 0, 7), None);
    assert_eq!(Crystal::from_cell(11, 0, 7), None);
    assert_eq!(Crystal::from_cell(6, 0, 2), None);
    assert_eq!(Crystal::from_cell(5, 0, u32::MAX), None);
}

#[test]
fn crystal_toggle_moves_collider_and_sprite() {
    let mut c = Crystal::from_cell(3, 0, 1).unwrap();
    c.toggle();
    assert!(!c.active && !c.has_collider);
    assert_eq!(c.tile_index, 1 + CRYSTAL_INDEX_OFFSET);
    c.toggle();
    assert!(c.active && c.has_collider);
    assert_eq!(c.tile_index, 1);
}

fn red_crystals() -> CrystalCache {
    let mut cache = CrystalCache::new();
    assert!(cache.register(1, Crystal::from_cell(4, 7, 9).unwrap()));
    assert!(cache.register(2, Crystal::from_cell(4, 7, 9).unwrap()));
    assert!(cache.register(3, Crystal::from_cell(5, 7, 0).unwrap()));
    cache
}

#[test]
fn toggle_twice_restores_group() {
    let mut cache = red_crystals();
    let before: Vec<_> = (1..=3).map(|e| cache.get(e).unwrap()).collect();
    cache.toggle(key(LightColor::Red, 7));
    assert!(cache.get(1).unwrap().active);
    assert!(cache.get(2).unwrap().active);
    assert!(cache.get(3).unwrap().active);
    cache.toggle(key(LightColor::Red, 7));
    let after: Vec<_> = (1..=3).map(|e| cache.get(e).unwrap()).collect();
    assert_eq!(before, after);
}

#[test]
fn toggle_of_unknown_group_changes_nothing() {
    let mut cache = red_crystals();
    let before: Vec<_> = (1..=3).map(|e| cache.get(e).unwrap()).collect();
    cache.on_crystal_changed(&vec![CrystalToggleEvent { color: key(LightColor::Blue, 99) }]);
    let after: Vec<_> = (1..=3).map(|e| cache.get(e).unwrap()).collect();
    assert_eq!(before, after);
}

#[test]
fn crystal_cache_bookkeeping() {
    let mut cache = red_crystals();
    assert!(!cache.register(1, Crystal::from_cell(3, 0, 0).unwrap()));
    assert_eq!(cache.len(), 3);
    assert_eq!(cache.members(key(LightColor::Red, 7)), vec![1, 2]);
    assert!(cache.despawn(2));
    assert!(!cache.despawn(2));
    assert_eq!(cache.members(key(LightColor::Red, 7)), vec![1]);
    cache.toggle(key(LightColor::Red, 7));
    assert!(cache.get(1).unwrap().active);
    assert_eq!(cache.get(2), None);
    cache.clear();
    assert_eq!(cache.len(), 0);
}

#[test]
fn reset_restores_initial_state() {
    let mut cache = red_crystals();
    cache.on_crystal_changed(&vec![
        CrystalToggleEvent { color: key(LightColor::Red, 7) },
        CrystalToggleEvent { color: key(LightColor::Green, 7) },
        CrystalToggleEvent { color: key(LightColor::Red, 7) },
        CrystalToggleEvent { color: key(LightColor::Red, 7) },
    ]);
    assert!(cache.get(1).unwrap().active);
    assert!(!cache.get(3).unwrap().active);
    cache.reset_crystals();
    for e in 1..=3 {
        let c = cache.get(e).unwrap();
        assert_eq!(c.active, c.init_active);
        assert_eq!(c.has_collider, c.init_active);
    }
    assert_eq!(cache.get(1).unwrap().tile_index, 9);
}

#[test]
fn activatable_config() {
    assert_eq!(init_activatable(Some(3), Some(true)), Ok(Activatable { id: 3, init_active: true }));
    assert_eq!(init_activatable(None, Some(true)), Err(ConfigError::MissingId));
    assert_eq!(init_activatable(Some(3), None), Err(ConfigError::MissingActive));
    assert_eq!(init_activatable(None, None), Err(ConfigError::MissingId));
    assert!(!ConfigError::MissingId.message().is_empty());
    let s = init_light_sensor(Some(LightColor::White), Some(4)).unwrap();
    assert_eq!(s.toggle_color, key(LightColor::White, 4));
    assert_eq!(init_light_sensor(Some(LightColor::Red), None), Err(ConfigError::MissingId));
    let z = init_light_sensor(Some(LightColor::Red), Some(0)).unwrap();
    assert_eq!(z.toggle_color, key(LightColor::Red, 0));
    assert_eq!(init_light_sensor(None, Some(4)), Err(ConfigError::MissingLightColor));
}

#[test]
fn activatables_switch_by_group() {
    let mut cache = ActivatableCache::new();
    assert!(cache.setup_activatables(10, Activatable { id: 1, init_active: true }));
    assert!(cache.setup_activatables(11, Activatable { id: 1, init_active: false }));
    assert!(cache.setup_activatables(12, Activatable { id: 2, init_active: false }));
    assert!(!cache.setup_activatables(12, Activatable { id: 5, init_active: true }));
    assert!(cache.is_activated(10));
    assert!(!cache.is_activated(11));
    cache.update_activatables(&vec![GroupTriggeredEvent { id: 1 }]);
    assert!(!cache.is_activated(10));
    assert!(cache.is_activated(11));
    assert!(!cache.is_activated(12));
    // a despawned member is skipped from then on
    assert!(cache.despawn(11));
    cache.update_activatables(&vec![GroupTriggeredEvent { id: 1 }, GroupTriggeredEvent { id: 9 }]);
    assert!(cache.is_activated(10));
    assert!(!cache.is_activated(11));
    cache.switch_group(2);
    cache.switch_group(2);
    assert!(!cache.is_activated(12));
    cache.switch_group(2);
    cache.reset();
    assert!(cache.is_activated(10));
    assert!(!cache.is_activated(12));
    assert_eq!(cache.len(), 2);
}
