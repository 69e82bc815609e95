//! Crystals: tiles whose collider and sprite follow an active flag, toggled as a group by light
//! sensors and reverted to their initial state on a level reset.
use vstd::prelude::*;

use crate::light::{CollisionGroups, GroupLabel, LightColor};

verus! {

/// The group key linking light sensors to the crystals they toggle: a color and a number.
#[derive(Clone, Copy, Debug, PartialEq, Eq, Structural, Hash)]
pub struct CrystalColor {
    pub color: LightColor,
    pub id: i32,
}

/// A request to toggle every crystal of a group.
#[derive(Clone, Copy, Debug, PartialEq, Eq, Structural)]
pub struct CrystalToggleEvent {
    pub color: CrystalColor,
}

/// Distance, in the crystal tile sheet, between the sprite of an active crystal and that of the
/// same crystal inactive.
pub const CRYSTAL_INDEX_OFFSET: u32 = 5;

/// The level cell values that stand for crystals.
pub open spec fn is_crystal_cell(value: i32) -> bool {
    3 <= value <= 10
}

pub open spec fn cell_active_spec(value: i32) -> bool {
    value == 3 || value == 5 || value == 7 || value == 9
}

pub open spec fn cell_color_spec(value: i32) -> LightColor {
    if value == 3 || value == 4 {
        LightColor::Red
    } else if value == 5 || value == 6 {
        LightColor::Green
    } else if value == 7 || value == 8 {
        LightColor::White
    } else {
        LightColor::Blue
    }
}

/// Whether a crystal cell value stands for a crystal that starts active.
pub fn is_crystal_active(value: i32) -> (r: bool)
    requires
        is_crystal_cell(value),
    ensures
        r == cell_active_spec(value),
{
    match value {
        3 | 5 | 7 | 9 => true,
        _ => false,
    }
}

/// The base color of the crystal a cell value stands for.
pub fn crystal_color(value: i32) -> (r: LightColor)
    requires
        is_crystal_cell(value),
    ensures
        r == cell_color_spec(value),
{
    match value {
        3 | 4 => LightColor::Red,
        5 | 6 => LightColor::Green,
        7 | 8 => LightColor::White,
        _ => LightColor::Blue,
    }
}

/// A crystal tile: its group, its initial and current active flag, whether its collider is
/// present, the collision groups its collider uses where they differ from plain terrain, and the
/// index of its sprite in the crystal tile sheet.
#[derive(Clone, Copy, Debug, PartialEq, Eq, Structural)]
pub struct Crystal {
    pub color: CrystalColor,
    pub init_active: bool,
    pub active: bool,
    pub has_collider: bool,
    pub groups: Option<CollisionGroups>,
    pub tile_index: u32,
}

/// Blue crystals are terrain to everything but blue rays, which pass through them.
pub open spec fn crystal_groups_spec(color: LightColor) -> Option<CollisionGroups> {
    match color {
        LightColor::Blue => Some(CollisionGroups { memberships: 4, filters: 0xffff_feff }),
        _ => None,
    }
}

/// The collision groups of a crystal of base color `color`.
pub fn crystal_groups(color: LightColor) -> (r: Option<CollisionGroups>)
    ensures
        r == crystal_groups_spec(color),
{
    assert(0xffff_ffffu32 & !256u32 == 0xffff_feffu32) by (bit_vector);
    match color {
        LightColor::Blue => Some(
            CollisionGroups {
                memberships: GroupLabel::TERRAIN,
                filters: GroupLabel::ALL & !GroupLabel::BLUE_RAY,
            },
        ),
        _ => None,
    }
}

/// `tile` can show a crystal in state `active` and, shifted by the offset, in the other state.
pub open spec fn tile_fits(active: bool, tile: u32) -> bool {
    if active {
        tile <= u32::MAX - CRYSTAL_INDEX_OFFSET
    } else {
        tile >= CRYSTAL_INDEX_OFFSET
    }
}

/// The crystal after one toggle: the flag flips, the collider follows it, and the sprite moves
/// to the other half of the tile sheet.
pub open spec fn flipped(c: Crystal) -> Crystal {
    if c.active {
        Crystal {
            active: false,
            has_collider: false,
            tile_index: (c.tile_index + CRYSTAL_INDEX_OFFSET) as u32,
            ..c
        }
    } else {
        Crystal {
            active: true,
            has_collider: true,
            tile_index: (c.tile_index - CRYSTAL_INDEX_OFFSET) as u32,
            ..c
        }
    }
}

/// The crystal brought back to its initial state.
pub open spec fn restored(c: Crystal) -> Crystal {
    if c.active == c.init_active {
        c
    } else {
        flipped(c)
    }
}

impl Crystal {
    /// The collider and the sprite agree with the active flag.
    pub open spec fn wf(&self) -> bool {
        &&& self.has_collider == self.active
        &&& tile_fits(self.active, self.tile_index)
    }

    /// The crystal for level cell `value`, in group `id`, drawn with sprite `tile_index`; `None`
    /// where the value stands for no crystal or the sprite has no counterpart for the other state.
    pub fn from_cell(value: i32, id: i32, tile_index: u32) -> (r: Option<Crystal>)
        ensures
            r.is_some() <==> is_crystal_cell(value) && tile_fits(cell_active_spec(value), tile_index),
            r.is_some() ==> r.unwrap() == (Crystal {
                color: CrystalColor { color: cell_color_spec(value), id },
                init_active: cell_active_spec(value),
                active: cell_active_spec(value),
                has_collider: cell_active_spec(value),
                groups: crystal_groups_spec(cell_color_spec(value)),
                tile_index,
            }) && r.unwrap().wf(),
    {
        if value < 3 || value > 10 {
            return None;
        }
        let active = is_crystal_active(value);
        if active && tile_index > u32::MAX - CRYSTAL_INDEX_OFFSET {
            return None;
        }
        if !active && tile_index < CRYSTAL_INDEX_OFFSET {
            return None;
        }
        let base = crystal_color(value);
        Some(
            Crystal {
                color: CrystalColor { color: base, id },
                init_active: active,
                active,
                has_collider: active,
                groups: crystal_groups(base),
                tile_index,
            },
        )
    }

    /// Switches an inactive crystal on: its collider comes back and its sprite moves.
    fn activate(&mut self)
        requires
            old(self).wf(),
            !old(self).active,
        ensures
            *final(self) == flipped(*old(self)),
            final(self).wf(),
    {
        self.has_collider = true;
        self.tile_index = self.tile_index - CRYSTAL_INDEX_OFFSET;
        self.active = true;
    }

    /// Switches an active crystal off: its collider goes and its sprite moves.
    fn deactivate(&mut self)
        requires
            old(self).wf(),
            old(self).active,
        ensures
            *final(self) == flipped(*old(self)),
            final(self).wf(),
    {
        self.has_collider = false;
        self.tile_index = self.tile_index + CRYSTAL_INDEX_OFFSET;
        self.active = false;
    }

    /// Flips the crystal's state.
    pub fn toggle(&mut self)
        requires
            old(self).wf(),
        ensures
            *final(self) == flipped(*old(self)),
            final(self).wf(),
    {
        if self.active {
            self.deactivate();
        } else {
            self.activate();
        }
    }

    /// Brings the crystal back to its initial state.
    pub fn reset(&mut self)
        requires
            old(self).wf(),
        ensures
            *final(self) == restored(*old(self)),
            final(self).wf(),
            final(self).active == final(self).init_active,
    {
        if self.active != self.init_active {
            self.toggle();
        }
    }
}

/// Toggling a crystal twice gives back the crystal.
pub proof fn lemma_flip_twice(c: Crystal)
    requires
        c.wf(),
    ensures
        flipped(c).wf(),
        flipped(flipped(c)) == c,
{
}

/// A crystal together with the entity that carries it.
#[derive(Clone, Copy, Debug, PartialEq, Eq, Structural)]
pub struct CrystalEntry {
    pub entity: u64,
    pub crystal: Crystal,
}

/// Every member of group `key` toggled once; the others left alone.
pub open spec fn toggled(entries: Seq<CrystalEntry>, key: CrystalColor) -> Seq<CrystalEntry> {
    Seq::new(
        entries.len(),
        |i: int|
            if entries[i].crystal.color == key {
                CrystalEntry { entity: entries[i].entity, crystal: flipped(entries[i].crystal) }
            } else {
                entries[i]
            },
    )
}

/// The toggles of `events` applied in order.
pub open spec fn toggled_by(entries: Seq<CrystalEntry>, events: Seq<CrystalToggleEvent>) -> Seq<
    CrystalEntry,
>
    decreases events.len(),
{
    if events.len() == 0 {
        entries
    } else {
        toggled(toggled_by(entries, events.drop_last()), events.last().color)
    }
}

/// The entities in group `key`, in order.
pub open spec fn members_of(entries: Seq<CrystalEntry>, key: CrystalColor) -> Seq<u64>
    decreases entries.len(),
{
    if entries.len() == 0 {
        Seq::empty()
    } else if entries.last().crystal.color == key {
        members_of(entries.drop_last(), key).push(entries.last().entity)
    } else {
        members_of(entries.drop_last(), key)
    }
}

/// Every crystal brought back to its initial state.
pub open spec fn restored_all(entries: Seq<CrystalEntry>) -> Seq<CrystalEntry> {
    Seq::new(
        entries.len(),
        |i: int| CrystalEntry { entity: entries[i].entity, crystal: restored(entries[i].crystal) },
    )
}

/// Each crystal is consistent and each entity is listed once.
pub open spec fn entries_wf(entries: Seq<CrystalEntry>) -> bool {
    &&& forall|i: int| 0 <= i < entries.len() ==> (#[trigger] entries[i]).crystal.wf()
    &&& forall|i: int, j: int|
        0 <= i < entries.len() && 0 <= j < entries.len() && i != j ==> (#[trigger] entries[i]).entity
            != (#[trigger] entries[j]).entity
}

/// The crystals of the current level, each under its group key.
#[derive(Debug)]
pub struct CrystalCache {
    entries: Vec<CrystalEntry>,
}

impl View for CrystalCache {
    type V = Seq<CrystalEntry>;

    closed spec fn view(&self) -> Seq<CrystalEntry> {
        self.entries@
    }
}

impl CrystalCache {
    pub open spec fn wf(&self) -> bool {
        entries_wf(self@)
    }

    /// A cache with no crystal.
    pub fn new() -> (r: CrystalCache)
        ensures
            r.wf(),
            r@ == Seq::<CrystalEntry>::empty(),
    {
        CrystalCache { entries: Vec::new() }
    }

    /// Number of crystals held.
    pub fn len(&self) -> (r: usize)
        ensures
            r == self@.len(),
    {
        self.entries.len()
    }

    /// Position of `entity` in the cache, if it is there.
    pub fn find(&self, entity: u64) -> (r: Option<usize>)
        ensures
            match r {
                Some(i) => i < self@.len() && self@[i as int].entity == entity,
                None => forall|i: int| 0 <= i < self@.len() ==> self@[i].entity != entity,
            },
    {
        let mut i: usize = 0;
        while i < self.entries.len()
            invariant
                i <= self@.len(),
                forall|j: int| 0 <= j < i ==> self@[j].entity != entity,
            decreases self@.len() - i,
        {
            if self.entries[i].entity == entity {
                return Some(i);
            }
            i = i + 1;
        }
        None
    }

    /// The crystal carried by `entity`, if it is cached.
    pub fn get(&self, entity: u64) -> (r: Option<Crystal>)
        ensures
            r.is_some() <==> exists|i: int| 0 <= i < self@.len() && self@[i].entity == entity,
            r.is_some() ==> exists|i: int|
                0 <= i < self@.len() && self@[i] == (CrystalEntry {
                    entity,
                    crystal: r.unwrap(),
                }),
    {
        match self.find(entity) {
            Some(i) => Some(self.entries[i].crystal),
            None => None,
        }
    }

    /// Adds a newly spawned crystal. An entity already cached is left as it is and `false` is
    /// returned.
    pub fn register(&mut self, entity: u64, crystal: Crystal) -> (r: bool)
        requires
            old(self).wf(),
            crystal.wf(),
        ensures
            final(self).wf(),
            r == forall|i: int| 0 <= i < old(self)@.len() ==> old(self)@[i].entity != entity,
            r ==> final(self)@ == old(self)@.push(CrystalEntry { entity, crystal }),
            !r ==> final(self)@ == old(self)@,
    {
        if self.find(entity).is_some() {
            return false;
        }
        self.entries.push(CrystalEntry { entity, crystal });
        true
    }

    /// Forgets a despawned crystal. Returns whether it was cached.
    pub fn despawn(&mut self, entity: u64) -> (r: bool)
        requires
            old(self).wf(),
        ensures
            final(self).wf(),
            r == exists|i: int| 0 <= i < old(self)@.len() && old(self)@[i].entity == entity,
            r ==> exists|i: int|
                0 <= i < old(self)@.len() && old(self)@[i].entity == entity && final(self)@
                    == old(self)@.remove(i),
            !r ==> final(self)@ == old(self)@,
    {
        match self.find(entity) {
            Some(i) => {
                self.entries.remove(i);
                assert(forall|j: int|
                    0 <= j < final(self)@.len() ==> #[trigger] final(self)@[j] == old(self)@[if j
                        < i {
                        j
                    } else {
                        j + 1
                    }]);
                true
            },
            None => false,
        }
    }

    /// Drops every crystal: their level is gone.
    pub fn clear(&mut self)
        ensures
            final(self).wf(),
            final(self)@ == Seq::<CrystalEntry>::empty(),
    {
        self.entries = Vec::new();
    }

    /// The entities in group `key`, in cache order.
    pub fn members(&self, key: CrystalColor) -> (r: Vec<u64>)
        ensures
            r@ == members_of(self@, key),
    {
        let mut r: Vec<u64> = Vec::new();
        let mut i: usize = 0;
        while i < self.entries.len()
            invariant
                i <= self@.len(),
                r@ == members_of(self@.subrange(0, i as int), key),
            decreases self@.len() - i,
        {
            let e = self.entries[i];
            proof {
                let s = self@.subrange(0, i as int);
                assert(self@.subrange(0, i + 1) =~= s.push(e));
                assert(s.push(e).drop_last() =~= s);
            }
            if e.crystal.color == key {
                r.push(e.entity);
            }
            i = i + 1;
        }
        assert(self@.subrange(0, self@.len() as int) =~= self@);
        r
    }

    /// Toggles every crystal of group `key`: each one's flag flips, and its collider and sprite
    /// follow. A key with no member changes nothing.
    pub fn toggle(&mut self, key: CrystalColor)
        requires
            old(self).wf(),
        ensures
            final(self).wf(),
            final(self)@ == toggled(old(self)@, key),
    {
        let n = self.entries.len();
        let mut i: usize = 0;
        while i < n
            invariant
                n == self@.len(),
                n == old(self)@.len(),
                i <= n,
                old(self).wf(),
                forall|j: int| 0 <= j < i ==> #[trigger] self@[j] == toggled(old(self)@, key)[j],
                forall|j: int| i <= j < n ==> #[trigger] self@[j] == old(self)@[j],
            decreases n - i,
        {
            let mut e = self.entries[i];
            if e.crystal.color == key {
                e.crystal.toggle();
                self.entries.set(i, e);
            }
            i = i + 1;
        }
        assert(self@ =~= toggled(old(self)@, key));
        proof {
            lemma_toggled_wf(old(self)@, key);
        }
    }

    /// Applies the toggle requests of one tick, in order.
    pub fn on_crystal_changed(&mut self, events: &Vec<CrystalToggleEvent>)
        requires
            old(self).wf(),
        ensures
            final(self).wf(),
            final(self)@ == toggled_by(old(self)@, events@),
    {
        let mut i: usize = 0;
        while i < events.len()
            invariant
                i <= events@.len(),
                self.wf(),
                self@ == toggled_by(old(self)@, events@.subrange(0, i as int)),
            decreases events@.len() - i,
        {
            proof {
                let s = events@.subrange(0, i + 1);
                assert(s.drop_last() =~= events@.subrange(0, i as int));
            }
            self.toggle(events[i].color);
            i = i + 1;
        }
        assert(events@.subrange(0, events@.len() as int) =~= events@);
    }

    /// Brings every crystal back to its initial state.
    pub fn reset_crystals(&mut self)
        requires
            old(self).wf(),
        ensures
            final(self).wf(),
            final(self)@ == restored_all(old(self)@),
            forall|i: int|
                0 <= i < final(self)@.len() ==> #[trigger] final(self)@[i].crystal.active
                    == final(self)@[i].crystal.init_active,
    {
        let n = self.entries.len();
        let mut i: usize = 0;
        while i < n
            invariant
                n == self@.len(),
                n == old(self)@.len(),
                i <= n,
                old(self).wf(),
                forall|j: int| 0 <= j < i ==> #[trigger] self@[j] == restored_all(old(self)@)[j],
                forall|j: int| i <= j < n ==> #[trigger] self@[j] == old(self)@[j],
            decreases n - i,
        {
            let mut e = self.entries[i];
            e.crystal.reset();
            self.entries.set(i, e);
            i = i + 1;
        }
        assert(self@ =~= restored_all(old(self)@));
    }
}

proof fn lemma_toggled_wf(entries: Seq<CrystalEntry>, key: CrystalColor)
    requires
        entries_wf(entries),
    ensures
        entries_wf(toggled(entries, key)),
{
    let t = toggled(entries, key);
    assert forall|i: int| 0 <= i < t.len() implies (#[trigger] t[i]).crystal.wf() by {
        lemma_flip_twice(entries[i].crystal);
    }
    assert forall|i: int, j: int|
        0 <= i < t.len() && 0 <= j < t.len() && i != j implies (#[trigger] t[i]).entity != (
        #[trigger] t[j]).entity by {
        assert(t[i].entity == entries[i].entity);
        assert(t[j].entity == entries[j].entity);
    }
}

/// Toggling a group twice, with no member added or removed in between, gives every crystal back
/// its state.
pub proof fn lemma_toggle_twice(entries: Seq<CrystalEntry>, key: CrystalColor)
    requires
        entries_wf(entries),
    ensures
        toggled(toggled(entries, key), key) == entries,
{
    let t = toggled(toggled(entries, key), key);
    assert forall|i: int| 0 <= i < entries.len() implies t[i] == entries[i] by {
        lemma_flip_twice(entries[i].crystal);
    }
    assert(t =~= entries);
}

/// After a reset every crystal is in its initial state, whatever toggles came before.
pub proof fn lemma_reset_after_toggles(entries: Seq<CrystalEntry>, events: Seq<CrystalToggleEvent>)
    requires
        entries_wf(entries),
    ensures
        restored_all(toggled_by(entries, events)) == restored_all(entries),
    decreases events.len(),
{
    if events.len() > 0 {
        lemma_reset_after_toggles(entries, events.drop_last());
        let before = toggled_by(entries, events.drop_last());
        lemma_toggled_by_wf(entries, events.drop_last());
        let after = toggled(before, events.last().color);
        assert forall|i: int| 0 <= i < entries.len() implies restored_all(after)[i]
            == restored_all(before)[i] by {
            lemma_flip_twice(before[i].crystal);
        }
        assert(restored_all(after) =~= restored_all(before));
    }
}

proof fn lemma_toggled_by_wf(entries: Seq<CrystalEntry>, events: Seq<CrystalToggleEvent>)
    requires
        entries_wf(entries),
    ensures
        entries_wf(toggled_by(entries, events)),
        toggled_by(entries, events).len() == entries.len(),
        forall|i: int|
            0 <= i < entries.len() ==> (#[trigger] toggled_by(entries, events)[i]).entity
                == entries[i].entity && toggled_by(entries, events)[i].crystal.init_active
                == entries[i].crystal.init_active,
    decreases events.len(),
{
    if events.len() > 0 {
        lemma_toggled_by_wf(entries, events.drop_last());
        lemma_toggled_wf(toggled_by(entries, events.drop_last()), events.last().color);
    }
}

} // verus!
