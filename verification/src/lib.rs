//! An offline path-tracing renderer.
//!
//! Scalars are signed 64-bit fixed-point numbers with [`fx::SCALE`] units per
//! world unit, so every geometric computation is exact integer arithmetic and
//! its result is pinned down by the contracts.  Scenes hold four primitive
//! shapes; a camera fires jittered rays per pixel, traces light bounces
//! recursively, and serializes the pixel buffer as a plain-text PPM image.

pub mod fx;
pub mod vec3;
pub mod textures;
pub mod ray;
pub mod objects;
pub mod rng;
pub mod scene;
pub mod viewport;
pub mod camera;
pub mod ppm;
pub mod text;
pub mod light_sources;
