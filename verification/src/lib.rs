//! Simulation core of a top-down action game: an entity-component store with
//! typed lookups and a deferred despawn queue, a channel-masked AABB collision
//! pipeline with penetration push-out, a 2D lighting pass that builds shadow
//! wedges from occluder silhouettes, and a fixed eight-slot inventory of
//! stateful items. Fixed-point coordinates (1000 subunits per pixel) stand in
//! for the floating-point positions a renderer would interpolate.

pub mod collision;
pub mod components;
pub mod game;
pub mod geom;
pub mod inventory;
pub mod lighting;
pub mod math;
pub mod render;
pub mod render_data;
pub mod world;

use vstd::prelude::*;

verus! {

/// Subunits per pixel of the fixed-point world coordinates.
pub const FP_SCALE: i64 = 1000;

} // verus!
