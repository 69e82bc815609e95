//! Light colors, their per-color rules, and the light ray sources fired by the player.
use vstd::prelude::*;

use crate::geometry::{dir_in_range, point_in_range, Vec2};

verus! {

/// Distance a light beam grows by on every fixed simulation tick.
pub const LIGHT_SPEED: i64 = 10;

/// Cap on the distance a beam may have travelled; a source stops growing there.
pub const MAX_DISTANCE: i64 = 0x100_0000_0000;

/// Number of light colors.
pub const NUM_COLORS: usize = 4;

/// The colors of light.
#[derive(Clone, Copy, Debug, PartialEq, Eq, Structural, Hash)]
pub enum LightColor {
    Green,
    Red,
    White,
    Blue,
}

pub open spec fn bounces_spec(c: LightColor) -> nat {
    match c {
        LightColor::Red => 2,
        _ => 1,
    }
}

pub open spec fn color_index_spec(c: LightColor) -> nat {
    match c {
        LightColor::Green => 0,
        LightColor::Red => 1,
        LightColor::White => 2,
        LightColor::Blue => 3,
    }
}

pub open spec fn color_at(i: int) -> LightColor {
    if i == 0 {
        LightColor::Green
    } else if i == 1 {
        LightColor::Red
    } else if i == 2 {
        LightColor::White
    } else {
        LightColor::Blue
    }
}

impl LightColor {
    /// The number of bounces off of terrain each color can make.
    pub fn num_bounces(&self) -> (r: usize)
        ensures
            r == bounces_spec(*self),
    {
        match self {
            LightColor::Red => 2,
            _ => 1,
        }
    }

    /// Position of the color in tables kept per color.
    pub fn index(&self) -> (r: usize)
        ensures
            r == color_index_spec(*self),
            r < NUM_COLORS,
            color_at(r as int) == *self,
    {
        match self {
            LightColor::Green => 0,
            LightColor::Red => 1,
            LightColor::White => 2,
            LightColor::Blue => 3,
        }
    }

    /// The color stored at position `i` of a per-color table.
    pub fn from_index(i: usize) -> (r: LightColor)
        requires
            i < NUM_COLORS,
        ensures
            r == color_at(i as int),
            color_index_spec(r) == i,
    {
        if i == 0 {
            LightColor::Green
        } else if i == 1 {
            LightColor::Red
        } else if i == 2 {
            LightColor::White
        } else {
            LightColor::Blue
        }
    }
}

/// Bits naming the collision groups of the physics world.
pub struct GroupLabel;

impl GroupLabel {
    pub const PLAYER_COLLIDER: u32 = 1;
    pub const PLAYER_SENSOR: u32 = 2;
    pub const TERRAIN: u32 = 4;
    pub const LIGHT_RAY: u32 = 8;
    pub const LIGHT_SENSOR: u32 = 16;
    pub const HURT_BOX: u32 = 32;
    pub const WHITE_RAY: u32 = 64;
    pub const STRAND: u32 = 128;
    pub const BLUE_RAY: u32 = 256;
    pub const ALL: u32 = 0xffff_ffff;
}

/// The groups a collider belongs to, and the groups it interacts with.
#[derive(Clone, Copy, Debug, PartialEq, Eq, Structural)]
pub struct CollisionGroups {
    pub memberships: u32,
    pub filters: u32,
}

pub open spec fn ray_groups_spec(c: LightColor) -> CollisionGroups {
    match c {
        LightColor::White => CollisionGroups { memberships: 64, filters: 20 },
        LightColor::Blue => CollisionGroups { memberships: 256, filters: 84 },
        _ => CollisionGroups { memberships: 8, filters: 84 },
    }
}

/// The collision groups a ray of color `c` is cast with: white rays form a group of their own
/// that colored rays can hit; every ray is stopped by terrain and seen by light sensors.
pub fn ray_groups(c: LightColor) -> (r: CollisionGroups)
    ensures
        r == ray_groups_spec(c),
{
    assert(4u32 | 16u32 == 20u32) by (bit_vector);
    assert(4u32 | 16u32 | 64u32 == 84u32) by (bit_vector);
    match c {
        LightColor::White => CollisionGroups {
            memberships: GroupLabel::WHITE_RAY,
            filters: GroupLabel::TERRAIN | GroupLabel::LIGHT_SENSOR,
        },
        LightColor::Blue => CollisionGroups {
            memberships: GroupLabel::BLUE_RAY,
            filters: GroupLabel::TERRAIN | GroupLabel::LIGHT_SENSOR | GroupLabel::WHITE_RAY,
        },
        _ => CollisionGroups {
            memberships: GroupLabel::LIGHT_RAY,
            filters: GroupLabel::TERRAIN | GroupLabel::LIGHT_SENSOR | GroupLabel::WHITE_RAY,
        },
    }
}

/// The start of a light beam. The beam is `time_traveled` long, measured in multiples of the
/// length of `start_dir`.
#[derive(Clone, Copy, Debug, PartialEq, Eq, Structural)]
pub struct LightRaySource {
    pub start_pos: Vec2,
    pub start_dir: Vec2,
    pub time_traveled: i64,
    /// Most bounces the beam has made so far; only drives one-shot cues.
    pub num_bounces: usize,
    pub color: LightColor,
}

impl LightRaySource {
    pub open spec fn wf(&self) -> bool {
        &&& point_in_range(self.start_pos)
        &&& dir_in_range(self.start_dir)
        &&& !(self.start_dir.x == 0 && self.start_dir.y == 0)
        &&& 0 <= self.time_traveled <= MAX_DISTANCE
        &&& self.num_bounces <= bounces_spec(self.color) + 1
    }

    /// A fresh source at `start_pos`, heading along `start_dir`, that has not travelled yet.
    pub fn new(start_pos: Vec2, start_dir: Vec2, color: LightColor) -> (r: LightRaySource)
        requires
            point_in_range(start_pos),
            dir_in_range(start_dir),
            !(start_dir.x == 0 && start_dir.y == 0),
        ensures
            r.wf(),
            r == (LightRaySource { start_pos, start_dir, time_traveled: 0, num_bounces: 0, color }),
    {
        LightRaySource { start_pos, start_dir, time_traveled: 0, num_bounces: 0, color }
    }

    pub open spec fn ticked(self) -> LightRaySource {
        LightRaySource {
            time_traveled: if self.time_traveled + LIGHT_SPEED <= MAX_DISTANCE {
                (self.time_traveled + LIGHT_SPEED) as i64
            } else {
                MAX_DISTANCE
            },
            ..self
        }
    }

    /// Grows the beam by one tick's worth of travel, up to the cap.
    pub fn tick(&mut self)
        requires
            old(self).wf(),
        ensures
            *final(self) == old(self).ticked(),
            final(self).wf(),
    {
        if self.time_traveled <= MAX_DISTANCE - LIGHT_SPEED {
            self.time_traveled = self.time_traveled + LIGHT_SPEED;
        } else {
            self.time_traveled = MAX_DISTANCE;
        }
    }
}

} // verus!
