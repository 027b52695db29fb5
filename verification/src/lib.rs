//! Core of a small real-time 3D rendering engine: a retained scene of
//! entities with components, mesh resources with lazily created GPU buffers,
//! and a render pass that issues only the GPU state changes that are needed.
//!
//! The library never talks to a GPU. Every operation appends commands to a
//! [`gl::GlQueue`]; the host replays them on a real graphics context and
//! reports back the one outcome the pass depends on, whether a texture could
//! be bound. Floating-point quantities are carried as IEEE-754 bit patterns.

pub mod bytes;
pub mod engine;
pub mod gl;
pub mod light;
pub mod material;
pub mod mesh;
pub mod object;
pub mod pass;
pub mod value;
