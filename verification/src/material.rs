//! Shader programs, textures and the materials that pair them.
//!
//! Programs and textures are shared resources that live on the GPU. The
//! library knows each by its handle: two references denote the same
//! resource exactly when their handles are equal, whatever else they hold.

use vstd::prelude::*;

verus! {

/// A linked shader program, with the attribute locations it exposes.
/// A location is `None` where the program has no such attribute.
#[derive(Clone, Copy, Debug, PartialEq, Eq, Structural)]
pub struct ShaderProgram {
    pub id: u64,
    pub vertex_position: Option<u32>,
    pub vertex_normal: Option<u32>,
    pub texture_coord: Option<u32>,
}

/// A texture resource.
#[derive(Clone, Copy, Debug, PartialEq, Eq, Structural)]
pub struct Texture {
    pub id: u64,
}

/// A shader program with the parameters to draw with.
#[derive(Clone, Copy, Debug, PartialEq, Eq, Structural)]
pub struct Material {
    pub program: ShaderProgram,
    pub texture: Texture,
    pub shininess: u32,
}

} // verus!
