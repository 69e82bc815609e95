//! Light sensors: debounce "hit by light this frame" into one toggle request per continuous
//! exposure that lasts the activation duration. A sensor triggers when an exposure completes,
//! never when it ends; the timer runs only while the sensor is hit, and a release stops it at
//! zero, which re-arms the sensor.
use vstd::prelude::*;

use crate::crystal::{CrystalColor, CrystalToggleEvent};

verus! {

/// How long, in milliseconds, light must keep hitting a sensor before it triggers.
pub const DEFAULT_ACTIVATION_MS: u64 = 300;

/// A one-shot countdown in milliseconds that can be paused: it finishes once `elapsed` reaches
/// `duration` and then stays finished until reset.
#[derive(Clone, Copy, Debug, PartialEq, Eq, Structural)]
pub struct Timer {
    pub duration: u64,
    pub elapsed: u64,
    pub paused: bool,
    pub finished: bool,
    /// Whether the last tick is the one that finished the timer.
    pub just_finished: bool,
}

impl Timer {
    pub open spec fn wf(&self) -> bool {
        &&& self.elapsed <= self.duration
        &&& self.finished ==> self.elapsed == self.duration
    }

    pub open spec fn ticked(self, dt: u64) -> Timer {
        if self.paused || self.finished {
            Timer { just_finished: false, ..self }
        } else if self.elapsed + dt >= self.duration {
            Timer { elapsed: self.duration, finished: true, just_finished: true, ..self }
        } else {
            Timer {
                elapsed: (self.elapsed + dt) as u64,
                finished: false,
                just_finished: false,
                ..self
            }
        }
    }

    pub open spec fn cleared(self) -> Timer {
        Timer { elapsed: 0, finished: false, just_finished: false, ..self }
    }

    /// A paused timer of `duration` milliseconds that has not started.
    pub fn new(duration: u64) -> (r: Timer)
        ensures
            r.wf(),
            r == (Timer {
                duration,
                elapsed: 0,
                paused: true,
                finished: false,
                just_finished: false,
            }),
    {
        Timer { duration, elapsed: 0, paused: true, finished: false, just_finished: false }
    }

    /// Advances the timer by `dt` milliseconds unless it is paused or already finished.
    pub fn tick(&mut self, dt: u64)
        requires
            old(self).wf(),
        ensures
            final(self).wf(),
            *final(self) == old(self).ticked(dt),
    {
        if self.paused || self.finished {
            self.just_finished = false;
        } else if dt >= self.duration - self.elapsed {
            self.elapsed = self.duration;
            self.finished = true;
            self.just_finished = true;
        } else {
            self.elapsed = self.elapsed + dt;
            self.just_finished = false;
        }
    }

    /// Sets the elapsed time back to zero and un-finishes the timer; pausing is left as it is.
    pub fn reset(&mut self)
        ensures
            *final(self) == old(self).cleared(),
            final(self).wf(),
    {
        self.elapsed = 0;
        self.finished = false;
        self.just_finished = false;
    }

    pub fn pause(&mut self)
        ensures
            *final(self) == (Timer { paused: true, ..*old(self) }),
    {
        self.paused = true;
    }

    pub fn unpause(&mut self)
        ensures
            *final(self) == (Timer { paused: false, ..*old(self) }),
    {
        self.paused = false;
    }
}

/// A sensor receptive to light, linked to the group of crystals it toggles.
#[derive(Clone, Copy, Debug, PartialEq, Eq, Structural)]
pub struct LightSensor {
    /// Total time light has been hitting the sensor, in milliseconds.
    pub cumulative_exposure: u64,
    /// Counts down a continuous exposure; runs only while the sensor is hit.
    pub activation_timer: Timer,
    /// Whether the sensor was hit on the previous frame.
    pub was_hit: bool,
    /// The group of crystals to toggle.
    pub toggle_color: CrystalColor,
}

pub open spec fn sat_add(a: u64, b: u64) -> u64 {
    if a + b <= u64::MAX {
        (a + b) as u64
    } else {
        u64::MAX
    }
}

/// The timer after the edge handling of one frame: a rising edge starts it from zero, a falling
/// edge stops it at zero.
pub open spec fn edge_timer(s: LightSensor, hit: bool) -> Timer {
    if hit && !s.was_hit {
        Timer { paused: false, ..s.activation_timer.cleared() }
    } else if !hit && s.was_hit {
        Timer { paused: true, ..s.activation_timer.cleared() }
    } else {
        s.activation_timer
    }
}

/// The sensor after one frame of `dt` milliseconds in which it was hit or not.
pub open spec fn updated(s: LightSensor, hit: bool, dt: u64) -> LightSensor {
    LightSensor {
        cumulative_exposure: if hit {
            sat_add(s.cumulative_exposure, dt)
        } else {
            s.cumulative_exposure
        },
        activation_timer: edge_timer(s, hit).ticked(dt),
        was_hit: hit,
        toggle_color: s.toggle_color,
    }
}

/// The sensor after a level reset: timer stopped at zero, no exposure, not hit.
pub open spec fn reset_spec(s: LightSensor) -> LightSensor {
    LightSensor {
        cumulative_exposure: 0,
        activation_timer: Timer { paused: true, ..s.activation_timer.cleared() },
        was_hit: false,
        toggle_color: s.toggle_color,
    }
}

impl LightSensor {
    /// The timer is consistent, and stopped whenever the sensor was not hit on the last frame.
    pub open spec fn wf(&self) -> bool {
        &&& self.activation_timer.wf()
        &&& !self.was_hit ==> self.activation_timer.paused
    }

    /// A fresh sensor toggling `toggle_color` after the default activation duration.
    pub open spec fn new_spec(toggle_color: CrystalColor) -> LightSensor {
        LightSensor {
            cumulative_exposure: 0,
            activation_timer: Timer {
                duration: DEFAULT_ACTIVATION_MS,
                elapsed: 0,
                paused: true,
                finished: false,
                just_finished: false,
            },
            was_hit: false,
            toggle_color,
        }
    }

    /// A sensor toggling `toggle_color` after the default activation duration.
    pub fn new(toggle_color: CrystalColor) -> (r: LightSensor)
        ensures
            r.wf(),
            r == LightSensor::new_spec(toggle_color),
    {
        LightSensor::with_activation_duration(toggle_color, DEFAULT_ACTIVATION_MS)
    }

    /// A sensor toggling `toggle_color` after `duration` milliseconds of continuous exposure.
    pub fn with_activation_duration(toggle_color: CrystalColor, duration: u64) -> (r: LightSensor)
        ensures
            r.wf(),
            r == (LightSensor {
                cumulative_exposure: 0,
                activation_timer: Timer {
                    duration,
                    elapsed: 0,
                    paused: true,
                    finished: false,
                    just_finished: false,
                },
                was_hit: false,
                toggle_color,
            }),
    {
        LightSensor {
            cumulative_exposure: 0,
            activation_timer: Timer::new(duration),
            was_hit: false,
            toggle_color,
        }
    }

    /// Runs one frame of `dt` milliseconds in which the sensor was hit or not, and returns whether
    /// the sensor triggered: whether this frame completed the activation duration of a continuous
    /// exposure.
    pub fn update(&mut self, hit: bool, dt: u64) -> (fired: bool)
        requires
            old(self).wf(),
        ensures
            final(self).wf(),
            *final(self) == updated(*old(self), hit, dt),
            fired == final(self).activation_timer.just_finished,
    {
        if hit {
            if !self.was_hit {
                self.activation_timer.unpause();
            }
            self.cumulative_exposure = self.cumulative_exposure.saturating_add(dt);
        }
        if self.was_hit != hit {
            self.activation_timer.reset();
            if !hit {
                self.activation_timer.pause();
            }
        }
        self.activation_timer.tick(dt);
        self.was_hit = hit;
        self.activation_timer.just_finished
    }

    /// Clears the sensor for a new attempt at the level.
    pub fn reset(&mut self)
        ensures
            *final(self) == reset_spec(*old(self)),
            final(self).wf(),
    {
        self.activation_timer.reset();
        self.activation_timer.pause();
        self.was_hit = false;
        self.cumulative_exposure = 0;
    }
}

/// Total of a run of frame durations.
pub open spec fn total(dts: Seq<u64>) -> int
    decreases dts.len(),
{
    if dts.len() == 0 {
        0
    } else {
        total(dts.drop_last()) + dts.last()
    }
}

/// The sensor after frames `dts` all hit, and the number of times it triggered.
pub open spec fn exposed(s: LightSensor, dts: Seq<u64>) -> (LightSensor, nat)
    decreases dts.len(),
{
    if dts.len() == 0 {
        (s, 0)
    } else {
        let (prev, count) = exposed(s, dts.drop_last());
        let next = updated(prev, true, dts.last());
        (next, if next.activation_timer.just_finished {
            count + 1
        } else {
            count
        })
    }
}

/// A sensor that was not hit on the previous frame and is then hit continuously triggers exactly
/// once if the exposure lasts at least its activation duration, and never otherwise, however long
/// the exposure goes on.
pub proof fn lemma_single_trigger(s: LightSensor, dts: Seq<u64>)
    requires
        s.wf(),
        !s.was_hit,
        dts.len() > 0,
    ensures
        exposed(s, dts).1 == (if total(dts) >= s.activation_timer.duration {
            1nat
        } else {
            0nat
        }),
    decreases dts.len(),
{
    lemma_exposure_state(s, dts);
}

proof fn lemma_exposure_state(s: LightSensor, dts: Seq<u64>)
    requires
        s.wf(),
        !s.was_hit,
        dts.len() > 0,
    ensures
        ({
            let (t, count) = exposed(s, dts);
            let d = s.activation_timer.duration;
            &&& t.was_hit
            &&& t.wf()
            &&& !t.activation_timer.paused
            &&& t.activation_timer.duration == d
            &&& t.activation_timer.finished == (total(dts) >= d)
            &&& total(dts) < d ==> t.activation_timer.elapsed == total(dts)
            &&& count == (if total(dts) >= d {
                1nat
            } else {
                0nat
            })
        }),
    decreases dts.len(),
{
    let prefix = dts.drop_last();
    assert(total(dts) == total(prefix) + dts.last());
    if dts.len() > 1 {
        lemma_exposure_state(s, prefix);
        assert(total(prefix) >= 0) by {
            lemma_total_nonneg(prefix);
        }
    } else {
        assert(prefix.len() == 0);
        assert(total(prefix) == 0);
        assert(exposed(s, prefix) == (s, 0nat));
    }
}

proof fn lemma_total_nonneg(dts: Seq<u64>)
    ensures
        total(dts) >= 0,
    decreases dts.len(),
{
    if dts.len() > 0 {
        lemma_total_nonneg(dts.drop_last());
    }
}

/// A light sensor together with the entity that carries it.
#[derive(Clone, Copy, Debug, PartialEq, Eq, Structural)]
pub struct SensorEntry {
    pub entity: u64,
    pub sensor: LightSensor,
}

/// The toggle requests of one frame: one for each sensor, in order, that triggers on it.
pub open spec fn triggered(entries: Seq<SensorEntry>, hits: Seq<u64>, dt: u64) -> Seq<
    CrystalToggleEvent,
>
    decreases entries.len(),
{
    if entries.len() == 0 {
        Seq::empty()
    } else {
        let e = entries.last();
        let rest = triggered(entries.drop_last(), hits, dt);
        if updated(e.sensor, hits.contains(e.entity), dt).activation_timer.just_finished {
            rest.push(CrystalToggleEvent { color: e.sensor.toggle_color })
        } else {
            rest
        }
    }
}

/// Every sensor of `entries` after one frame of `dt` milliseconds in which the colliders `hits`
/// were struck.
pub open spec fn frame(entries: Seq<SensorEntry>, hits: Seq<u64>, dt: u64) -> Seq<SensorEntry> {
    Seq::new(
        entries.len(),
        |i: int|
            SensorEntry {
                entity: entries[i].entity,
                sensor: updated(entries[i].sensor, hits.contains(entries[i].entity), dt),
            },
    )
}

/// The sensors after a run of frames, each given by what was struck in it and its duration.
pub open spec fn run_frames(entries: Seq<SensorEntry>, frames: Seq<(Seq<u64>, u64)>) -> Seq<
    SensorEntry,
>
    decreases frames.len(),
{
    if frames.len() == 0 {
        entries
    } else {
        frame(run_frames(entries, frames.drop_last()), frames.last().0, frames.last().1)
    }
}

/// How many frames of a run the sensor at position `i` triggered in.
pub open spec fn times_triggered(entries: Seq<SensorEntry>, frames: Seq<(Seq<u64>, u64)>, i: int) -> nat
    decreases frames.len(),
{
    if frames.len() == 0 {
        0
    } else {
        let before = run_frames(entries, frames.drop_last());
        let fired = updated(
            before[i].sensor,
            frames.last().0.contains(before[i].entity),
            frames.last().1,
        ).activation_timer.just_finished;
        times_triggered(entries, frames.drop_last(), i) + if fired {
            1nat
        } else {
            0nat
        }
    }
}

/// The durations of a run of frames.
pub open spec fn durations(frames: Seq<(Seq<u64>, u64)>) -> Seq<u64> {
    Seq::new(frames.len(), |k: int| frames[k].1)
}

proof fn lemma_run_is_exposure(entries: Seq<SensorEntry>, frames: Seq<(Seq<u64>, u64)>, i: int)
    requires
        0 <= i < entries.len(),
        forall|k: int| 0 <= k < frames.len() ==> (#[trigger] frames[k]).0.contains(entries[i].entity),
    ensures
        run_frames(entries, frames).len() == entries.len(),
        run_frames(entries, frames)[i].entity == entries[i].entity,
        run_frames(entries, frames)[i].sensor == exposed(entries[i].sensor, durations(frames)).0,
        times_triggered(entries, frames, i) == exposed(entries[i].sensor, durations(frames)).1,
    decreases frames.len(),
{
    if frames.len() > 0 {
        let prev = frames.drop_last();
        assert forall|k: int| 0 <= k < prev.len() implies (#[trigger] prev[k]).0.contains(
            entries[i].entity,
        ) by {
            assert(prev[k] == frames[k]);
        }
        lemma_run_is_exposure(entries, prev, i);
        assert(durations(frames).drop_last() =~= durations(prev));
        assert(frames[frames.len() - 1] == frames.last());
    }
}

/// A sensor of the table that was not hit on the frame before a run, and is struck in every
/// frame of the run, triggers in exactly one frame if the run lasts at least its activation
/// duration, and in none otherwise, however long the run goes on.
pub proof fn lemma_table_single_trigger(
    entries: Seq<SensorEntry>,
    frames: Seq<(Seq<u64>, u64)>,
    i: int,
)
    requires
        0 <= i < entries.len(),
        entries[i].sensor.wf(),
        !entries[i].sensor.was_hit,
        frames.len() > 0,
        forall|k: int| 0 <= k < frames.len() ==> (#[trigger] frames[k]).0.contains(entries[i].entity),
    ensures
        times_triggered(entries, frames, i) == (if total(durations(frames))
            >= entries[i].sensor.activation_timer.duration {
            1nat
        } else {
            0nat
        }),
{
    lemma_run_is_exposure(entries, frames, i);
    lemma_single_trigger(entries[i].sensor, durations(frames));
}

/// Whether `x` occurs in `v`.
pub fn contains(v: &Vec<u64>, x: u64) -> (r: bool)
    ensures
        r == v@.contains(x),
{
    let mut i: usize = 0;
    while i < v.len()
        invariant
            i <= v@.len(),
            forall|j: int| 0 <= j < i ==> v@[j] != x,
        decreases v@.len() - i,
    {
        if v[i] == x {
            return true;
        }
        i = i + 1;
    }
    false
}

/// The light sensors of the current level.
#[derive(Debug)]
pub struct LightSensors {
    entries: Vec<SensorEntry>,
}

impl View for LightSensors {
    type V = Seq<SensorEntry>;

    closed spec fn view(&self) -> Seq<SensorEntry> {
        self.entries@
    }
}

impl LightSensors {
    pub open spec fn wf(&self) -> bool {
        forall|i: int| 0 <= i < self@.len() ==> (#[trigger] self@[i]).sensor.wf()
    }

    pub fn new() -> (r: LightSensors)
        ensures
            r.wf(),
            r@ == Seq::<SensorEntry>::empty(),
    {
        LightSensors { entries: Vec::new() }
    }

    /// Adds the sensor carried by a newly spawned entity.
    pub fn add(&mut self, entity: u64, sensor: LightSensor)
        requires
            old(self).wf(),
            sensor.wf(),
        ensures
            final(self).wf(),
            final(self)@ == old(self)@.push(SensorEntry { entity, sensor }),
    {
        self.entries.push(SensorEntry { entity, sensor });
    }

    /// The sensor at position `i`.
    pub fn get(&self, i: usize) -> (r: SensorEntry)
        requires
            i < self@.len(),
        ensures
            r == self@[i as int],
    {
        self.entries[i]
    }

    pub fn len(&self) -> (r: usize)
        ensures
            r == self@.len(),
    {
        self.entries.len()
    }

    /// Whether `entity` carries one of the sensors.
    pub fn carries(&self, entity: u64) -> (r: bool)
        ensures
            r == exists|i: int| 0 <= i < self@.len() && (#[trigger] self@[i]).entity == entity,
    {
        let mut i: usize = 0;
        while i < self.entries.len()
            invariant
                i <= self@.len(),
                forall|j: int| 0 <= j < i ==> (#[trigger] self@[j]).entity != entity,
            decreases self@.len() - i,
        {
            if self.entries[i].entity == entity {
                return true;
            }
            i = i + 1;
        }
        false
    }

    /// Runs one frame of `dt` milliseconds: each sensor is hit when its entity is among `hits`,
    /// the colliders struck by light this frame. Returns the toggle request of each sensor that
    /// triggered, in sensor order.
    pub fn update_light_sensors(&mut self, hits: &Vec<u64>, dt: u64) -> (events: Vec<
        CrystalToggleEvent,
    >)
        requires
            old(self).wf(),
        ensures
            final(self).wf(),
            final(self)@ == frame(old(self)@, hits@, dt),
            events@ == triggered(old(self)@, hits@, dt),
    {
        let n = self.entries.len();
        let mut events: Vec<CrystalToggleEvent> = Vec::new();
        let mut i: usize = 0;
        while i < n
            invariant
                n == self@.len(),
                n == old(self)@.len(),
                i <= n,
                old(self).wf(),
                forall|j: int|
                    0 <= j < i ==> #[trigger] self@[j] == (SensorEntry {
                        entity: old(self)@[j].entity,
                        sensor: updated(old(self)@[j].sensor, hits@.contains(old(self)@[j].entity), dt),
                    }),
                forall|j: int| i <= j < n ==> #[trigger] self@[j] == old(self)@[j],
                events@ == triggered(old(self)@.subrange(0, i as int), hits@, dt),
            decreases n - i,
        {
            let mut e = self.entries[i];
            let hit = contains(hits, e.entity);
            let fired = e.sensor.update(hit, dt);
            proof {
                let s = old(self)@.subrange(0, i + 1);
                assert(s.drop_last() =~= old(self)@.subrange(0, i as int));
            }
            if fired {
                events.push(CrystalToggleEvent { color: e.sensor.toggle_color });
            }
            self.entries.set(i, e);
            i = i + 1;
        }
        assert(old(self)@.subrange(0, n as int) =~= old(self)@);
        assert(self@ =~= frame(old(self)@, hits@, dt));
        events
    }

    /// Clears every sensor: timers stopped at zero, no exposure, not hit.
    pub fn reset_light_sensors(&mut self)
        requires
            old(self).wf(),
        ensures
            final(self).wf(),
            final(self)@.len() == old(self)@.len(),
            forall|i: int|
                0 <= i < old(self)@.len() ==> #[trigger] final(self)@[i] == (SensorEntry {
                    entity: old(self)@[i].entity,
                    sensor: reset_spec(old(self)@[i].sensor),
                }),
    {
        let n = self.entries.len();
        let mut i: usize = 0;
        while i < n
            invariant
                n == self@.len(),
                n == old(self)@.len(),
                i <= n,
                forall|j: int|
                    0 <= j < i ==> #[trigger] self@[j] == (SensorEntry {
                        entity: old(self)@[j].entity,
                        sensor: reset_spec(old(self)@[j].sensor),
                    }),
                forall|j: int| i <= j < n ==> #[trigger] self@[j] == old(self)@[j],
            decreases n - i,
        {
            let mut e = self.entries[i];
            e.sensor.reset();
            self.entries.set(i, e);
            i = i + 1;
        }
    }
}

} // verus!
