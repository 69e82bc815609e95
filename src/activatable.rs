//! Activatables: level entities (doors and the like) switched on and off as a group by numbered
//! triggers, and the level-data errors met while setting them and light sensors up.
use vstd::prelude::*;

use crate::crystal::CrystalColor;
use crate::light::LightColor;
use crate::sensor::LightSensor;

verus! {

/// A field that level data must give and did not.
#[derive(Clone, Copy, Debug, PartialEq, Eq, Structural)]
pub enum ConfigError {
    /// An activatable or a light sensor has no integer `id`.
    MissingId,
    /// An activatable has no boolean `active`.
    MissingActive,
    /// A light sensor has no `light_color`.
    MissingLightColor,
}

impl ConfigError {
    /// A description of the error for the load failure it causes.
    pub fn message(&self) -> (r: &'static str) {
        match self {
            ConfigError::MissingId => "id should exist and be an integer",
            ConfigError::MissingActive => "activatable active status should exist and be a boolean",
            ConfigError::MissingLightColor => "light_color needs to be an enum field on all buttons",
        }
    }
}

/// An entity switched by group triggers: its group number and whether it starts active.
#[derive(Clone, Copy, Debug, PartialEq, Eq, Structural)]
pub struct Activatable {
    pub id: i32,
    pub init_active: bool,
}

/// A request to switch every activatable of group `id`.
#[derive(Clone, Copy, Debug, PartialEq, Eq, Structural)]
pub struct GroupTriggeredEvent {
    pub id: i32,
}

/// Builds an activatable from the `id` and `active` fields of its level data.
pub fn init_activatable(id: Option<i32>, active: Option<bool>) -> (r: Result<
    Activatable,
    ConfigError,
>)
    ensures
        id.is_none() ==> r == Err::<Activatable, ConfigError>(ConfigError::MissingId),
        id.is_some() && active.is_none() ==> r == Err::<Activatable, ConfigError>(
            ConfigError::MissingActive,
        ),
        id.is_some() && active.is_some() ==> r == Ok::<Activatable, ConfigError>(
            Activatable { id: id.unwrap(), init_active: active.unwrap() },
        ),
{
    match id {
        None => Err(ConfigError::MissingId),
        Some(id) => match active {
            None => Err(ConfigError::MissingActive),
            Some(init_active) => Ok(Activatable { id, init_active }),
        },
    }
}

/// Builds a light sensor from the `light_color` and `id` fields of a button's level data. The
/// sensor toggles the crystals of that color and number. Both fields are required: a group key is
/// never made up.
pub fn init_light_sensor(light_color: Option<LightColor>, id: Option<i32>) -> (r: Result<
    LightSensor,
    ConfigError,
>)
    ensures
        light_color.is_none() ==> r == Err::<LightSensor, ConfigError>(
            ConfigError::MissingLightColor,
        ),
        light_color.is_some() && id.is_none() ==> r == Err::<LightSensor, ConfigError>(
            ConfigError::MissingId,
        ),
        light_color.is_some() && id.is_some() ==> r == Ok::<LightSensor, ConfigError>(
            LightSensor::new_spec(CrystalColor { color: light_color.unwrap(), id: id.unwrap() }),
        ),
{
    match light_color {
        None => Err(ConfigError::MissingLightColor),
        Some(color) => match id {
            None => Err(ConfigError::MissingId),
            Some(id) => Ok(LightSensor::new(CrystalColor { color, id })),
        },
    }
}

/// An activatable together with the entity that carries it and whether it is active now.
#[derive(Clone, Copy, Debug, PartialEq, Eq, Structural)]
pub struct ActivatableEntry {
    pub entity: u64,
    pub activatable: Activatable,
    pub activated: bool,
}

/// Every member of group `id` switched once; the others left alone.
pub open spec fn switched(entries: Seq<ActivatableEntry>, id: i32) -> Seq<ActivatableEntry> {
    Seq::new(
        entries.len(),
        |i: int|
            if entries[i].activatable.id == id {
                ActivatableEntry { activated: !entries[i].activated, ..entries[i] }
            } else {
                entries[i]
            },
    )
}

/// The triggers of `events` applied in order.
pub open spec fn switched_by(entries: Seq<ActivatableEntry>, events: Seq<GroupTriggeredEvent>) -> Seq<
    ActivatableEntry,
>
    decreases events.len(),
{
    if events.len() == 0 {
        entries
    } else {
        switched(switched_by(entries, events.drop_last()), events.last().id)
    }
}

/// Every activatable back in its initial state.
pub open spec fn initial(entries: Seq<ActivatableEntry>) -> Seq<ActivatableEntry> {
    Seq::new(
        entries.len(),
        |i: int| ActivatableEntry { activated: entries[i].activatable.init_active, ..entries[i] },
    )
}

/// Each entity is listed once.
pub open spec fn unique_entities(entries: Seq<ActivatableEntry>) -> bool {
    forall|i: int, j: int|
        0 <= i < entries.len() && 0 <= j < entries.len() && i != j ==> (#[trigger] entries[i]).entity
            != (#[trigger] entries[j]).entity
}

/// The activatables of the loaded levels, each under its group number.
#[derive(Debug)]
pub struct ActivatableCache {
    entries: Vec<ActivatableEntry>,
}

impl View for ActivatableCache {
    type V = Seq<ActivatableEntry>;

    closed spec fn view(&self) -> Seq<ActivatableEntry> {
        self.entries@
    }
}

impl ActivatableCache {
    pub open spec fn wf(&self) -> bool {
        unique_entities(self@)
    }

    pub fn new() -> (r: ActivatableCache)
        ensures
            r.wf(),
            r@ == Seq::<ActivatableEntry>::empty(),
    {
        ActivatableCache { entries: Vec::new() }
    }

    pub fn len(&self) -> (r: usize)
        ensures
            r == self@.len(),
    {
        self.entries.len()
    }

    /// Position of `entity` in the cache, if it is there.
    pub fn find(&self, entity: u64) -> (r: Option<usize>)
        ensures
            match r {
                Some(i) => i < self@.len() && self@[i as int].entity == entity,
                None => forall|i: int| 0 <= i < self@.len() ==> self@[i].entity != entity,
            },
    {
        let mut i: usize = 0;
        while i < self.entries.len()
            invariant
                i <= self@.len(),
                forall|j: int| 0 <= j < i ==> self@[j].entity != entity,
            decreases self@.len() - i,
        {
            if self.entries[i].entity == entity {
                return Some(i);
            }
            i = i + 1;
        }
        None
    }

    /// Whether `entity` is cached and active now.
    pub fn is_activated(&self, entity: u64) -> (r: bool)
        requires
            self.wf(),
        ensures
            r == exists|i: int|
                0 <= i < self@.len() && self@[i].entity == entity && self@[i].activated,
    {
        match self.find(entity) {
            Some(i) => {
                let a = self.entries[i].activated;
                proof {
                    if !a {
                        assert forall|j: int|
                            0 <= j < self@.len() && self@[j].entity == entity implies !self@[j].activated by {
                            if j != i {
                                assert(self@[j].entity != self@[i as int].entity);
                            }
                        }
                    }
                }
                a
            },
            None => false,
        }
    }

    /// Takes in a newly spawned activatable, active if it starts active. An entity already cached
    /// is left as it is and `false` is returned.
    pub fn setup_activatables(&mut self, entity: u64, activatable: Activatable) -> (r: bool)
        requires
            old(self).wf(),
        ensures
            final(self).wf(),
            r == forall|i: int| 0 <= i < old(self)@.len() ==> old(self)@[i].entity != entity,
            r ==> final(self)@ == old(self)@.push(
                ActivatableEntry { entity, activatable, activated: activatable.init_active },
            ),
            !r ==> final(self)@ == old(self)@,
    {
        if self.find(entity).is_some() {
            return false;
        }
        self.entries.push(
            ActivatableEntry { entity, activatable, activated: activatable.init_active },
        );
        true
    }

    /// Forgets a despawned activatable. Returns whether it was cached.
    pub fn despawn(&mut self, entity: u64) -> (r: bool)
        requires
            old(self).wf(),
        ensures
            final(self).wf(),
            r == exists|i: int| 0 <= i < old(self)@.len() && old(self)@[i].entity == entity,
            r ==> exists|i: int|
                0 <= i < old(self)@.len() && old(self)@[i].entity == entity && final(self)@
                    == old(self)@.remove(i),
            !r ==> final(self)@ == old(self)@,
    {
        match self.find(entity) {
            Some(i) => {
                self.entries.remove(i);
                assert(forall|j: int|
                    0 <= j < final(self)@.len() ==> #[trigger] final(self)@[j] == old(self)@[if j
                        < i {
                        j
                    } else {
                        j + 1
                    }]);
                true
            },
            None => false,
        }
    }

    /// Switches every activatable of group `id`. A group with no member changes nothing.
    pub fn switch_group(&mut self, id: i32)
        requires
            old(self).wf(),
        ensures
            final(self).wf(),
            final(self)@ == switched(old(self)@, id),
    {
        let n = self.entries.len();
        let mut i: usize = 0;
        while i < n
            invariant
                n == self@.len(),
                n == old(self)@.len(),
                i <= n,
                forall|j: int| 0 <= j < i ==> #[trigger] self@[j] == switched(old(self)@, id)[j],
                forall|j: int| i <= j < n ==> #[trigger] self@[j] == old(self)@[j],
            decreases n - i,
        {
            let mut e = self.entries[i];
            if e.activatable.id == id {
                e.activated = !e.activated;
                self.entries.set(i, e);
            }
            i = i + 1;
        }
        assert(self@ =~= switched(old(self)@, id));
        assert forall|a: int, b: int|
            0 <= a < self@.len() && 0 <= b < self@.len() && a != b implies (#[trigger] self@[a]).entity
                != (#[trigger] self@[b]).entity by {
            assert(self@[a].entity == old(self)@[a].entity);
            assert(self@[b].entity == old(self)@[b].entity);
        }
    }

    /// Applies the group triggers of one tick, in order.
    pub fn update_activatables(&mut self, events: &Vec<GroupTriggeredEvent>)
        requires
            old(self).wf(),
        ensures
            final(self).wf(),
            final(self)@ == switched_by(old(self)@, events@),
    {
        let mut i: usize = 0;
        while i < events.len()
            invariant
                i <= events@.len(),
                self.wf(),
                self@ == switched_by(old(self)@, events@.subrange(0, i as int)),
            decreases events@.len() - i,
        {
            proof {
                let s = events@.subrange(0, i + 1);
                assert(s.drop_last() =~= events@.subrange(0, i as int));
            }
            self.switch_group(events[i].id);
            i = i + 1;
        }
        assert(events@.subrange(0, events@.len() as int) =~= events@);
    }

    /// Puts every activatable back in its initial state.
    pub fn reset(&mut self)
        requires
            old(self).wf(),
        ensures
            final(self).wf(),
            final(self)@ == initial(old(self)@),
    {
        let n = self.entries.len();
        let mut i: usize = 0;
        while i < n
            invariant
                n == self@.len(),
                n == old(self)@.len(),
                i <= n,
                forall|j: int| 0 <= j < i ==> #[trigger] self@[j] == initial(old(self)@)[j],
                forall|j: int| i <= j < n ==> #[trigger] self@[j] == old(self)@[j],
            decreases n - i,
        {
            let mut e = self.entries[i];
            e.activated = e.activatable.init_active;
            self.entries.set(i, e);
            i = i + 1;
        }
        assert(self@ =~= initial(old(self)@));
        assert forall|a: int, b: int|
            0 <= a < self@.len() && 0 <= b < self@.len() && a != b implies (#[trigger] self@[a]).entity
                != (#[trigger] self@[b]).entity by {
            assert(self@[a].entity == old(self)@[a].entity);
            assert(self@[b].entity == old(self)@[b].entity);
        }
    }
}

/// Switching a group twice, with no member added or removed in between, gives every
/// activatable back its state.
pub proof fn lemma_switch_twice(entries: Seq<ActivatableEntry>, id: i32)
    ensures
        switched(switched(entries, id), id) == entries,
{
    assert(switched(switched(entries, id), id) =~= entries);
}

/// Putting activatables back in their initial state undoes any run of group triggers.
pub proof fn lemma_initial_after_switches(
    entries: Seq<ActivatableEntry>,
    events: Seq<GroupTriggeredEvent>,
)
    ensures
        initial(switched_by(entries, events)) == initial(entries),
    decreases events.len(),
{
    if events.len() > 0 {
        lemma_initial_after_switches(entries, events.drop_last());
        let before = switched_by(entries, events.drop_last());
        assert(initial(switched(before, events.last().id)) =~= initial(before));
    }
}

} // verus!
