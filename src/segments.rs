//! The segment cache: per color, a fixed pool of reusable beam segment slots, rewritten from a
//! traced polyline every frame instead of being created and destroyed.
use vstd::prelude::*;

use crate::geometry::Vec2;
use crate::light::{
    bounces_spec, color_at, color_index_spec, CollisionGroups, GroupLabel, LightColor, NUM_COLORS,
};

verus! {

/// One reusable beam segment: shown from `start` to `end`, or hidden at zero length. White
/// beams are themselves colliders that other rays meet; their slots carry the collision groups
/// of that collider.
#[derive(Clone, Copy, Debug, PartialEq, Eq, Structural)]
pub struct SegmentSlot {
    pub visible: bool,
    pub start: Vec2,
    pub end: Vec2,
    pub collider: Option<CollisionGroups>,
}

/// The collider a segment of color `c` carries: white segments belong to the white-ray group
/// and meet terrain, sensors and the other rays; other segments carry none.
pub open spec fn segment_collider_spec(c: LightColor) -> Option<CollisionGroups> {
    match c {
        LightColor::White => Some(CollisionGroups { memberships: 64, filters: 284 }),
        _ => None,
    }
}

/// The collider a segment of color `c` carries.
pub fn segment_collider(c: LightColor) -> (r: Option<CollisionGroups>)
    ensures
        r == segment_collider_spec(c),
{
    assert(4u32 | 16u32 | 8u32 | 256u32 == 284u32) by (bit_vector);
    match c {
        LightColor::White => Some(
            CollisionGroups {
                memberships: GroupLabel::WHITE_RAY,
                filters: GroupLabel::TERRAIN | GroupLabel::LIGHT_SENSOR | GroupLabel::LIGHT_RAY
                    | GroupLabel::BLUE_RAY,
            },
        ),
        _ => None,
    }
}

pub open spec fn hidden_slot(c: LightColor) -> SegmentSlot {
    SegmentSlot {
        visible: false,
        start: Vec2 { x: 0, y: 0 },
        end: Vec2 { x: 0, y: 0 },
        collider: segment_collider_spec(c),
    }
}

/// What slot `i` of color `c` shows for the polyline `points`: its `i`-th segment, or nothing.
pub open spec fn slot_for(c: LightColor, points: Seq<Vec2>, i: int) -> SegmentSlot {
    if i + 1 < points.len() {
        SegmentSlot {
            visible: true,
            start: points[i],
            end: points[i + 1],
            collider: segment_collider_spec(c),
        }
    } else {
        hidden_slot(c)
    }
}

/// Number of slots kept for a color: one per cast its beam may make.
pub open spec fn pool_size(c: LightColor) -> nat {
    bounces_spec(c) + 1
}

pub open spec fn written(c: LightColor, points: Seq<Vec2>) -> Seq<SegmentSlot> {
    Seq::new(pool_size(c), |i: int| slot_for(c, points, i))
}

pub open spec fn all_hidden(c: LightColor) -> Seq<SegmentSlot> {
    Seq::new(pool_size(c), |i: int| hidden_slot(c))
}

/// A hidden slot of color `c`.
pub fn hidden(c: LightColor) -> (r: SegmentSlot)
    ensures
        r == hidden_slot(c),
{
    SegmentSlot {
        visible: false,
        start: Vec2 { x: 0, y: 0 },
        end: Vec2 { x: 0, y: 0 },
        collider: segment_collider(c),
    }
}

/// The segment slots of every color.
#[derive(Debug)]
pub struct LightSegmentCache {
    table: Vec<Vec<SegmentSlot>>,
}

impl LightSegmentCache {
    /// The slots of color `c`.
    pub closed spec fn slots(&self, c: LightColor) -> Seq<SegmentSlot> {
        self.table@[color_index_spec(c) as int]@
    }

    pub closed spec fn wf(&self) -> bool {
        &&& self.table@.len() == NUM_COLORS
        &&& forall|i: int|
            0 <= i < NUM_COLORS ==> (#[trigger] self.table@[i])@.len() == pool_size(color_at(i))
    }

    /// Every color's pool, all slots hidden.
    pub fn new() -> (r: LightSegmentCache)
        ensures
            r.wf(),
            forall|c: LightColor| r.slots(c) == all_hidden(c),
    {
        let mut table: Vec<Vec<SegmentSlot>> = Vec::new();
        let mut i: usize = 0;
        while i < NUM_COLORS
            invariant
                i <= NUM_COLORS,
                table@.len() == i,
                forall|j: int| 0 <= j < i ==> (#[trigger] table@[j])@ == all_hidden(color_at(j)),
            decreases NUM_COLORS - i,
        {
            let c = LightColor::from_index(i);
            table.push(hidden_pool(c));
            i = i + 1;
        }
        let r = LightSegmentCache { table };
        assert forall|c: LightColor| r.slots(c) == all_hidden(c) by {
            assert(color_at(color_index_spec(c) as int) == c);
        }
        r
    }

    /// Rewrites the slots of `color` from the polyline `points`: slot `i` shows the segment from
    /// `points[i]` to `points[i + 1]`, and slots past the polyline's end are hidden. Other colors
    /// are left as they are.
    pub fn write(&mut self, color: LightColor, points: &Vec<Vec2>)
        requires
            old(self).wf(),
        ensures
            final(self).wf(),
            final(self).slots(color) == written(color, points@),
            forall|c: LightColor| c != color ==> final(self).slots(c) == old(self).slots(c),
    {
        let n = color.num_bounces() + 1;
        let mut pool: Vec<SegmentSlot> = Vec::new();
        let mut i: usize = 0;
        while i < n
            invariant
                n == pool_size(color),
                i <= n,
                pool@.len() == i,
                forall|j: int| 0 <= j < i ==> #[trigger] pool@[j] == slot_for(color, points@, j),
            decreases n - i,
        {
            if i + 1 < points.len() {
                pool.push(
                    SegmentSlot {
                        visible: true,
                        start: points[i],
                        end: points[i + 1],
                        collider: segment_collider(color),
                    },
                );
            } else {
                pool.push(hidden(color));
            }
            i = i + 1;
        }
        assert(pool@ =~= written(color, points@));
        let ci = color.index();
        self.table.set(ci, pool);
        assert forall|c: LightColor| c != color implies final(self).slots(c) == old(self).slots(
            c,
        ) by {
            assert(color_index_spec(c) != color_index_spec(color));
        }
    }

    /// Hides every slot of every color.
    pub fn hide_all(&mut self)
        requires
            old(self).wf(),
        ensures
            final(self).wf(),
            forall|c: LightColor| final(self).slots(c) == all_hidden(c),
    {
        *self = LightSegmentCache::new();
    }

    /// The slots of `color`, in order.
    pub fn slots_of(&self, color: LightColor) -> (r: Vec<SegmentSlot>)
        requires
            self.wf(),
        ensures
            r@ == self.slots(color),
    {
        let ci = color.index();
        let pool = &self.table[ci];
        let mut r: Vec<SegmentSlot> = Vec::new();
        let mut i: usize = 0;
        while i < pool.len()
            invariant
                i <= pool@.len(),
                r@ == pool@.subrange(0, i as int),
            decreases pool@.len() - i,
        {
            r.push(pool[i]);
            i = i + 1;
            assert(r@ =~= pool@.subrange(0, i as int));
        }
        assert(r@ =~= pool@);
        r
    }
}

fn hidden_pool(c: LightColor) -> (r: Vec<SegmentSlot>)
    ensures
        r@ == all_hidden(c),
{
    let n = c.num_bounces() + 1;
    let mut r: Vec<SegmentSlot> = Vec::new();
    let mut i: usize = 0;
    while i < n
        invariant
            n == pool_size(c),
            i <= n,
            r@.len() == i,
            forall|j: int| 0 <= j < i ==> #[trigger] r@[j] == hidden_slot(c),
        decreases n - i,
    {
        r.push(hidden(c));
        i = i + 1;
    }
    assert(r@ =~= all_hidden(c));
    r
}

} // verus!
