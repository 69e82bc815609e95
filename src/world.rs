//! The simulation context: light sources, segment cache, sensors, crystals and activatables,
//! advanced together tick by tick and reset together when the level restarts.
use vstd::prelude::*;

use crate::activatable::{
    initial, lemma_initial_after_switches, switched_by, ActivatableCache, ActivatableEntry,
    GroupTriggeredEvent,
};
use crate::crystal::{
    entries_wf, lemma_reset_after_toggles, restored_all, toggled_by, CrystalCache, CrystalEntry,
    CrystalToggleEvent,
};
use crate::geometry::{dir_in_range, point_in_range, Vec2};
use crate::light::{LightColor, LightRaySource};
use crate::segments::{all_hidden, written, LightSegmentCache};
use crate::sensor::{reset_spec, triggered, updated, LightSensor, LightSensors, SensorEntry};
use crate::sources::{has_color, ticked_all, LightSources};
use crate::trace::{simulate_ray, traced, RayCast, RayHit, TraceView};

verus! {

/// Why the level restarts: the player died, or moved to another level.
#[derive(Clone, Copy, Debug, PartialEq, Eq, Structural)]
pub enum ResetLevel {
    Respawn,
    Switching,
}

/// `e` carries one of `sensors`.
pub open spec fn is_sensor(sensors: Seq<SensorEntry>, e: u64) -> bool {
    exists|i: int| 0 <= i < sensors.len() && (#[trigger] sensors[i]).entity == e
}

/// The colliders of `struck` that carry a light sensor, in order.
pub open spec fn sensors_struck(struck: Seq<u64>, sensors: Seq<SensorEntry>) -> Seq<u64>
    decreases struck.len(),
{
    if struck.len() == 0 {
        Seq::empty()
    } else if is_sensor(sensors, struck.last()) {
        sensors_struck(struck.drop_last(), sensors).push(struck.last())
    } else {
        sensors_struck(struck.drop_last(), sensors)
    }
}

/// The light sensors struck by the traces `vs`, trace after trace.
pub open spec fn sensor_hits(vs: Seq<TraceView>, sensors: Seq<SensorEntry>) -> Seq<u64>
    decreases vs.len(),
{
    if vs.len() == 0 {
        Seq::empty()
    } else {
        sensor_hits(vs.drop_last(), sensors) + sensors_struck(vs.last().struck, sensors)
    }
}

/// `after` is `before` with the most bounces seen raised to `n` if `n` is more.
pub open spec fn noted_bounces(before: LightRaySource, after: LightRaySource, n: int) -> bool {
    &&& after == LightRaySource { num_bounces: after.num_bounces, ..before }
    &&& after.num_bounces == if n > before.num_bounces {
        n
    } else {
        before.num_bounces as int
    }
}

/// `v` is a finished trace of `before` through the physics world answered by `cast`, `segments`
/// shows it in the slots of its color, and `after` is `before` having noted its bounces.
pub open spec fn beam_done<F: Fn(&RayCast) -> Option<RayHit>>(
    cast: &F,
    before: LightRaySource,
    after: LightRaySource,
    segments: LightSegmentCache,
    v: TraceView,
) -> bool {
    &&& traced(before, cast, v)
    &&& segments.slots(before.color) == written(before.color, v.points)
    &&& noted_bounces(before, after, v.struck.len() as int)
}

/// `after` is `before` with every sensor run for one frame of `dt` milliseconds in which the
/// colliders `hits` were struck.
pub open spec fn sensors_ran(
    before: Seq<SensorEntry>,
    after: Seq<SensorEntry>,
    hits: Seq<u64>,
    dt: u64,
) -> bool {
    &&& after.len() == before.len()
    &&& forall|i: int|
        0 <= i < before.len() ==> #[trigger] after[i] == (SensorEntry {
            entity: before[i].entity,
            sensor: updated(before[i].sensor, hits.contains(before[i].entity), dt),
        })
}

/// Everything the light simulation keeps between ticks.
#[derive(Debug)]
pub struct LightWorld {
    pub sources: LightSources,
    pub segments: LightSegmentCache,
    pub sensors: LightSensors,
    pub crystals: CrystalCache,
    pub activatables: ActivatableCache,
}

impl LightWorld {
    pub open spec fn wf(&self) -> bool {
        &&& self.sources.wf()
        &&& self.segments.wf()
        &&& self.sensors.wf()
        &&& self.crystals.wf()
        &&& self.activatables.wf()
    }

    /// An empty level: no beam, every segment hidden, nothing spawned.
    pub fn new() -> (r: LightWorld)
        ensures
            r.wf(),
            r.sources@.len() == 0,
            forall|c: LightColor| r.segments.slots(c) == all_hidden(c),
            r.sensors@.len() == 0,
            r.crystals@.len() == 0,
            r.activatables@.len() == 0,
    {
        LightWorld {
            sources: LightSources::new(),
            segments: LightSegmentCache::new(),
            sensors: LightSensors::new(),
            crystals: CrystalCache::new(),
            activatables: ActivatableCache::new(),
        }
    }

    /// Fires a beam; see [`LightSources::shoot_light`].
    pub fn fire_light(&mut self, origin: Vec2, dir: Vec2, color: LightColor) -> (fired: bool)
        requires
            old(self).wf(),
            point_in_range(origin),
            dir_in_range(dir),
        ensures
            final(self).wf(),
            fired == (!has_color(old(self).sources@, color) && !(dir.x == 0 && dir.y == 0)),
            fired ==> final(self).sources@ == old(self).sources@.push(
                LightRaySource {
                    start_pos: origin,
                    start_dir: dir,
                    time_traveled: 0,
                    num_bounces: 0,
                    color,
                },
            ),
            !fired ==> final(self).sources@ == old(self).sources@,
            final(self).segments == old(self).segments,
            final(self).sensors@ == old(self).sensors@,
            final(self).crystals@ == old(self).crystals@,
            final(self).activatables@ == old(self).activatables@,
    {
        self.sources.shoot_light(origin, dir, color)
    }

    /// The fixed-rate step: every beam grows by one tick's worth of travel.
    pub fn fixed_tick(&mut self)
        requires
            old(self).wf(),
        ensures
            final(self).wf(),
            final(self).sources@ == ticked_all(old(self).sources@),
            final(self).segments == old(self).segments,
            final(self).sensors@ == old(self).sensors@,
            final(self).crystals@ == old(self).crystals@,
            final(self).activatables@ == old(self).activatables@,
    {
        self.sources.tick_light_sources();
    }

    /// Traces every beam through the physics world answered by `cast` and rewrites each beam's
    /// segment slots from its polyline; colors with no beam keep their slots. Returns the light
    /// sensors struck, beam after beam, and records on each beam the most bounces seen.
    pub fn simulate_light_sources<F: Fn(&RayCast) -> Option<RayHit>>(&mut self, cast: &F) -> (hits:
        Vec<u64>)
        requires
            old(self).wf(),
            forall|q: &RayCast| cast.requires((q,)),
        ensures
            final(self).wf(),
            final(self).sources@.len() == old(self).sources@.len(),
            forall|c: LightColor|
                !has_color(old(self).sources@, c) ==> #[trigger] final(self).segments.slots(c)
                    == old(self).segments.slots(c),
            exists|vs: Seq<TraceView>|
                {
                    &&& vs.len() == old(self).sources@.len()
                    &&& hits@ == #[trigger] sensor_hits(vs, old(self).sensors@)
                    &&& forall|i: int|
                        0 <= i < old(self).sources@.len() ==> #[trigger] beam_done(
                            cast,
                            old(self).sources@[i],
                            final(self).sources@[i],
                            final(self).segments,
                            vs[i],
                        )
                },
            final(self).sensors@ == old(self).sensors@,
            final(self).crystals@ == old(self).crystals@,
            final(self).activatables@ == old(self).activatables@,
    {
        let mut hits: Vec<u64> = Vec::new();
        let ghost mut vs: Seq<TraceView> = Seq::empty();
        let n = self.sources.len();
        let mut i: usize = 0;
        while i < n
            invariant
                self.wf(),
                old(self).wf(),
                n == self.sources@.len(),
                n == old(self).sources@.len(),
                i <= n,
                vs.len() == i,
                forall|q: &RayCast| cast.requires((q,)),
                forall|j: int|
                    0 <= j < i ==> #[trigger] beam_done(
                        cast,
                        old(self).sources@[j],
                        self.sources@[j],
                        self.segments,
                        vs[j],
                    ),
                forall|j: int| i <= j < n ==> #[trigger] self.sources@[j] == old(self).sources@[j],
                forall|c: LightColor|
                    !(exists|j: int| 0 <= j < i && (#[trigger] old(self).sources@[j]).color == c)
                        ==> #[trigger] self.segments.slots(c) == old(self).segments.slots(c),
                hits@ == sensor_hits(vs, old(self).sensors@),
                self.sensors@ == old(self).sensors@,
                self.crystals@ == old(self).crystals@,
                self.activatables@ == old(self).activatables@,
            decreases n - i,
        {
            let ghost seg0 = self.segments;
            let ghost src0 = self.sources@;
            let source = self.sources.get(i);
            let t = simulate_ray(&source, cast);
            self.segments.write(source.color, &t.points);
            self.sources.note_bounces(i, t.struck.len());
            let ghost before = hits@;
            let mut k: usize = 0;
            while k < t.struck.len()
                invariant
                    k <= t.struck@.len(),
                    self.sensors@ == old(self).sensors@,
                    hits@ == before + sensors_struck(t.struck@.take(k as int), old(self).sensors@),
                decreases t.struck@.len() - k,
            {
                let e = t.struck[k];
                proof {
                    assert(t.struck@.take(k + 1).drop_last() =~= t.struck@.take(k as int));
                }
                if self.sensors.carries(e) {
                    hits.push(e);
                    assert(hits@ =~= before + sensors_struck(t.struck@.take(k + 1), old(self).sensors@));
                }
                k = k + 1;
            }
            proof {
                assert(t.struck@.take(t.struck@.len() as int) =~= t.struck@);
                let old_vs = vs;
                vs = vs.push(t.view());
                assert(vs.drop_last() =~= old_vs);
                let cur = old(self).sources@[i as int];
                assert(cur == source);
                assert(vs[i as int] == t.view());
                assert(traced(cur, cast, vs[i as int]));
                assert(self.segments.slots(cur.color) == written(cur.color, vs[i as int].points));
                assert forall|j: int| 0 <= j < i + 1 implies #[trigger] beam_done(
                    cast,
                    old(self).sources@[j],
                    self.sources@[j],
                    self.segments,
                    vs[j],
                ) by {
                    if j != i {
                        assert(old(self).sources@[j].color != old(self).sources@[i as int].color);
                        assert(vs[j] == old_vs[j]);
                        assert(beam_done(cast, old(self).sources@[j], src0[j], seg0, old_vs[j]));
                        assert(self.sources@[j] == src0[j]);
                    } else {
                        assert(noted_bounces(cur, self.sources@[j], vs[j].struck.len() as int));
                    }
                }
            }
            i = i + 1;
        }
        proof {
            assert forall|c: LightColor| !has_color(old(self).sources@, c) implies #[trigger] self.segments.slots(c)
                == old(self).segments.slots(c) by {
                if exists|j: int| 0 <= j < n && (#[trigger] old(self).sources@[j]).color == c {
                    let j = choose|j: int| 0 <= j < n && (#[trigger] old(self).sources@[j]).color == c;
                    assert(has_color(old(self).sources@, c));
                }
            }
        }
        hits
    }

    /// Runs the sensors for a frame of `dt` milliseconds in which `hits` were struck by light,
    /// then toggles the crystal groups of the sensors that triggered. Returns those toggles.
    pub fn update_light_sensors(&mut self, hits: &Vec<u64>, dt: u64) -> (events: Vec<
        CrystalToggleEvent,
    >)
        requires
            old(self).wf(),
        ensures
            final(self).wf(),
            events@ == triggered(old(self).sensors@, hits@, dt),
            final(self).sensors@.len() == old(self).sensors@.len(),
            forall|i: int|
                0 <= i < old(self).sensors@.len() ==> #[trigger] final(self).sensors@[i] == (
                SensorEntry {
                    entity: old(self).sensors@[i].entity,
                    sensor: updated(
                        old(self).sensors@[i].sensor,
                        hits@.contains(old(self).sensors@[i].entity),
                        dt,
                    ),
                }),
            final(self).crystals@ == toggled_by(old(self).crystals@, events@),
            final(self).sources@ == old(self).sources@,
            final(self).segments == old(self).segments,
            final(self).activatables@ == old(self).activatables@,
    {
        let events = self.sensors.update_light_sensors(hits, dt);
        self.crystals.on_crystal_changed(&events);
        events
    }

    /// One frame: traces every beam as [`LightWorld::simulate_light_sources`] does, runs the
    /// sensors on the sensors those traces struck, then toggles the crystal groups of the sensors
    /// that triggered. Returns those toggles.
    pub fn update<F: Fn(&RayCast) -> Option<RayHit>>(&mut self, cast: &F, dt: u64) -> (events: Vec<
        CrystalToggleEvent,
    >)
        requires
            old(self).wf(),
            forall|q: &RayCast| cast.requires((q,)),
        ensures
            final(self).wf(),
            final(self).sources@.len() == old(self).sources@.len(),
            forall|c: LightColor|
                !has_color(old(self).sources@, c) ==> #[trigger] final(self).segments.slots(c)
                    == old(self).segments.slots(c),
            exists|vs: Seq<TraceView>|
                {
                    &&& vs.len() == old(self).sources@.len()
                    &&& forall|i: int|
                        0 <= i < old(self).sources@.len() ==> #[trigger] beam_done(
                            cast,
                            old(self).sources@[i],
                            final(self).sources@[i],
                            final(self).segments,
                            vs[i],
                        )
                    &&& sensors_ran(
                        old(self).sensors@,
                        final(self).sensors@,
                        #[trigger] sensor_hits(vs, old(self).sensors@),
                        dt,
                    )
                    &&& events@ == triggered(
                        old(self).sensors@,
                        sensor_hits(vs, old(self).sensors@),
                        dt,
                    )
                },
            final(self).crystals@ == toggled_by(old(self).crystals@, events@),
            final(self).activatables@ == old(self).activatables@,
    {
        let hits = self.simulate_light_sources(cast);
        let events = self.update_light_sensors(&hits, dt);
        assert(sensors_ran(old(self).sensors@, self.sensors@, hits@, dt));
        events
    }

    /// Restarts the level: every beam is removed and its segments hidden, every sensor cleared,
    /// and every crystal and activatable put back in its initial state.
    pub fn reset_level(&mut self, reason: ResetLevel)
        requires
            old(self).wf(),
        ensures
            final(self).wf(),
            final(self).sources@.len() == 0,
            forall|c: LightColor| #[trigger] final(self).segments.slots(c) == all_hidden(c),
            final(self).sensors@.len() == old(self).sensors@.len(),
            forall|i: int|
                0 <= i < old(self).sensors@.len() ==> #[trigger] final(self).sensors@[i] == (
                SensorEntry {
                    entity: old(self).sensors@[i].entity,
                    sensor: reset_spec(old(self).sensors@[i].sensor),
                }),
            final(self).crystals@ == restored_all(old(self).crystals@),
            final(self).activatables@ == initial(old(self).activatables@),
    {
        self.sources.cleanup_light_sources();
        self.segments.hide_all();
        self.sensors.reset_light_sensors();
        self.crystals.reset_crystals();
        self.activatables.reset();
    }
}

/// A level reset leaves every crystal and activatable in its initial state however many toggles
/// came before, and every sensor stopped at zero, not hit and with no exposure.
pub proof fn lemma_reset_determinism(
    crystals: Seq<CrystalEntry>,
    toggles: Seq<CrystalToggleEvent>,
    activatables: Seq<ActivatableEntry>,
    triggers: Seq<GroupTriggeredEvent>,
    sensor: LightSensor,
)
    requires
        entries_wf(crystals),
    ensures
        restored_all(toggled_by(crystals, toggles)) == restored_all(crystals),
        forall|i: int|
            0 <= i < crystals.len() ==> (#[trigger] restored_all(crystals)[i]).crystal.active
                == crystals[i].crystal.init_active,
        initial(switched_by(activatables, triggers)) == initial(activatables),
        forall|i: int|
            0 <= i < activatables.len() ==> (#[trigger] initial(activatables)[i]).activated
                == activatables[i].activatable.init_active,
        reset_spec(sensor).activation_timer.paused,
        reset_spec(sensor).activation_timer.elapsed == 0,
        !reset_spec(sensor).activation_timer.finished,
        !reset_spec(sensor).was_hit,
        reset_spec(sensor).cumulative_exposure == 0,
{
    lemma_reset_after_toggles(crystals, toggles);
    lemma_initial_after_switches(activatables, triggers);
}

} // verus!
