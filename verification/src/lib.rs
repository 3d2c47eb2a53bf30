//! A sculptable-world renderer, modelled in fixed-point integer arithmetic.
//!
//! The world is a toroidally wrapped rectangle holding a signed-distance
//! terrain field that the user carves and fills, a capped list of implicit
//! shapes accelerated by a flattened bounding-volume hierarchy, and a capped
//! list of point lights.  A frame runs a fixed pass sequence: geometry
//! extraction, light accumulation with dithered soft shadows, exposure
//! tonemapping, temporal (or direct) upsampling, and a final composite.
//!
//! Every quantity is an integer: world coordinates are texel-sized units and
//! sub-texel offsets are carried as scaled fixed-point values, so each stage
//! is a deterministic function of its inputs and its contract states the
//! produced value exactly.

pub mod mathx;
pub mod sdf;
pub mod shape;
pub mod bvh;
pub mod light;
pub mod texture;
pub mod taa;
pub mod blit_sampler;
pub mod geometry;
pub mod light_map;
pub mod renderer;
pub mod scene;
