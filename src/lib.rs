//! Light-ray simulation and activation engine of a reflective-beam puzzle platformer.
//!
//! Coordinates live on an integer lattice: the level is built from axis-aligned tiles, so every
//! surface normal a ray can meet is one of the four axis unit vectors. Each tick, beams grow
//! ([`world::LightWorld::fixed_tick`]), are traced through the physics world
//! ([`trace::simulate_ray`]) into the segment cache, the light sensors they strike debounce the
//! hits into toggle requests ([`sensor`]), and the requests flip crystal groups ([`crystal`]).
pub mod activatable;
pub mod crystal;
pub mod geometry;
pub mod light;
pub mod segments;
pub mod sensor;
pub mod sources;
pub mod trace;
pub mod world;
