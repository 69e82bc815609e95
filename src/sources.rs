//! The light source registry: the beams in flight, at most one per color, and the player's
//! choice of color.
use vstd::prelude::*;

use crate::geometry::{dir_in_range, point_in_range, Vec2};
use crate::light::{LightColor, LightRaySource};

verus! {

/// No two sources share a color.
pub open spec fn colors_distinct(s: Seq<LightRaySource>) -> bool {
    forall|i: int, j: int|
        0 <= i < s.len() && 0 <= j < s.len() && i != j ==> (#[trigger] s[i]).color != (
        #[trigger] s[j]).color
}

/// Some source in `s` has color `c`.
pub open spec fn has_color(s: Seq<LightRaySource>, c: LightColor) -> bool {
    exists|i: int| 0 <= i < s.len() && (#[trigger] s[i]).color == c
}

/// Every source grown by one tick.
pub open spec fn ticked_all(s: Seq<LightRaySource>) -> Seq<LightRaySource> {
    Seq::new(s.len(), |i: int| s[i].ticked())
}

/// The light sources in flight.
#[derive(Debug)]
pub struct LightSources {
    sources: Vec<LightRaySource>,
}

impl View for LightSources {
    type V = Seq<LightRaySource>;

    closed spec fn view(&self) -> Seq<LightRaySource> {
        self.sources@
    }
}

impl LightSources {
    pub open spec fn wf(&self) -> bool {
        &&& colors_distinct(self@)
        &&& forall|i: int| 0 <= i < self@.len() ==> (#[trigger] self@[i]).wf()
    }

    pub fn new() -> (r: LightSources)
        ensures
            r.wf(),
            r@ == Seq::<LightRaySource>::empty(),
    {
        LightSources { sources: Vec::new() }
    }

    pub fn len(&self) -> (r: usize)
        ensures
            r == self@.len(),
    {
        self.sources.len()
    }

    /// The source at position `i`.
    pub fn get(&self, i: usize) -> (r: LightRaySource)
        requires
            i < self@.len(),
        ensures
            r == self@[i as int],
    {
        self.sources[i]
    }

    /// Whether a source of color `color` is in flight.
    pub fn has_source(&self, color: LightColor) -> (r: bool)
        ensures
            r == has_color(self@, color),
    {
        let mut i: usize = 0;
        while i < self.sources.len()
            invariant
                i <= self@.len(),
                forall|j: int| 0 <= j < i ==> self@[j].color != color,
            decreases self@.len() - i,
        {
            if self.sources[i].color == color {
                return true;
            }
            i = i + 1;
        }
        false
    }

    /// Fires a beam of `color` from `origin` along `dir`. Rejected, with nothing changed, when a
    /// beam of that color is already in flight or the direction is zero.
    pub fn shoot_light(&mut self, origin: Vec2, dir: Vec2, color: LightColor) -> (fired: bool)
        requires
            old(self).wf(),
            point_in_range(origin),
            dir_in_range(dir),
        ensures
            final(self).wf(),
            fired == (!has_color(old(self)@, color) && !(dir.x == 0 && dir.y == 0)),
            fired ==> final(self)@ == old(self)@.push(
                LightRaySource {
                    start_pos: origin,
                    start_dir: dir,
                    time_traveled: 0,
                    num_bounces: 0,
                    color,
                },
            ),
            !fired ==> final(self)@ == old(self)@,
    {
        if dir.is_zero() || self.has_source(color) {
            return false;
        }
        self.sources.push(LightRaySource::new(origin, dir, color));
        true
    }

    /// Grows every beam by one tick's worth of travel.
    pub fn tick_light_sources(&mut self)
        requires
            old(self).wf(),
        ensures
            final(self).wf(),
            final(self)@ == ticked_all(old(self)@),
    {
        let n = self.sources.len();
        let mut i: usize = 0;
        while i < n
            invariant
                n == self@.len(),
                n == old(self)@.len(),
                i <= n,
                old(self).wf(),
                forall|j: int| 0 <= j < i ==> #[trigger] self@[j] == old(self)@[j].ticked(),
                forall|j: int| i <= j < n ==> #[trigger] self@[j] == old(self)@[j],
            decreases n - i,
        {
            let mut s = self.sources[i];
            s.tick();
            self.sources.set(i, s);
            i = i + 1;
        }
        assert(self@ =~= ticked_all(old(self)@));
        assert(colors_distinct(self@));
    }

    /// Records that the beam at position `i` made `bounces` bounces this frame, keeping the most
    /// seen so far.
    pub fn note_bounces(&mut self, i: usize, bounces: usize)
        requires
            old(self).wf(),
            i < old(self)@.len(),
            bounces <= crate::light::bounces_spec(old(self)@[i as int].color) + 1,
        ensures
            final(self).wf(),
            final(self)@ == old(self)@.update(
                i as int,
                LightRaySource {
                    num_bounces: if bounces > old(self)@[i as int].num_bounces {
                        bounces
                    } else {
                        old(self)@[i as int].num_bounces
                    },
                    ..old(self)@[i as int]
                },
            ),
    {
        let mut s = self.sources[i];
        if bounces > s.num_bounces {
            s.num_bounces = bounces;
        }
        self.sources.set(i, s);
        assert(colors_distinct(self@));
    }

    /// Removes every beam.
    pub fn cleanup_light_sources(&mut self)
        ensures
            final(self).wf(),
            final(self)@ == Seq::<LightRaySource>::empty(),
    {
        self.sources = Vec::new();
    }
}

/// The color the player shoots next.
#[derive(Clone, Copy, Debug, PartialEq, Eq, Structural)]
pub struct PlayerLightInventory {
    pub current_color: LightColor,
}

impl PlayerLightInventory {
    /// Green is chosen at the start.
    pub fn new() -> (r: PlayerLightInventory)
        ensures
            r.current_color == LightColor::Green,
    {
        PlayerLightInventory { current_color: LightColor::Green }
    }

    /// Chooses a color by number key: 1 green, 2 red, 3 white, 4 blue; any other key changes
    /// nothing.
    pub fn handle_color_switch(&mut self, digit: u32)
        ensures
            final(self).current_color == (if digit == 1 {
                LightColor::Green
            } else if digit == 2 {
                LightColor::Red
            } else if digit == 3 {
                LightColor::White
            } else if digit == 4 {
                LightColor::Blue
            } else {
                old(self).current_color
            }),
    {
        if digit == 1 {
            self.current_color = LightColor::Green;
        } else if digit == 2 {
            self.current_color = LightColor::Red;
        } else if digit == 3 {
            self.current_color = LightColor::White;
        } else if digit == 4 {
            self.current_color = LightColor::Blue;
        }
    }
}

} // verus!
