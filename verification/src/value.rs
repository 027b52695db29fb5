//! Floating-point quantities, carried as IEEE-754 single-precision bit
//! patterns so that they can be compared and copied exactly.

use vstd::prelude::*;

verus! {

/// Bit pattern of `0.0`.
pub const ZERO: u32 = 0x0000_0000;

/// Bit pattern of `1.0`.
pub const ONE: u32 = 0x3F80_0000;

/// Bit pattern of `0.5`.
pub const HALF: u32 = 0x3F00_0000;

/// Bit pattern of `0.2`.
pub const FIFTH: u32 = 0x3E4C_CCCD;

/// Bit pattern of `32.0`.
pub const THIRTY_TWO: u32 = 0x4200_0000;

/// Bit pattern of `0.5 / 1.5`.
pub const THIRD: u32 = 0x3EAA_AAAB;

/// Bit pattern of `1.0 / 1.5`.
pub const TWO_THIRDS: u32 = 0x3F2A_AAAB;

/// Bit pattern of `-1.0 / 1.5`.
pub const MINUS_TWO_THIRDS: u32 = 0xBF2A_AAAB;

/// Three single-precision components, each as its bit pattern.
#[derive(Clone, Copy, Debug, PartialEq, Eq, Structural)]
pub struct Vector3 {
    pub x: u32,
    pub y: u32,
    pub z: u32,
}

/// A unit quaternion, each coefficient as its bit pattern.
#[derive(Clone, Copy, Debug, PartialEq, Eq, Structural)]
pub struct Quaternion {
    pub w: u32,
    pub i: u32,
    pub j: u32,
    pub k: u32,
}

/// A rigid pose: a rotation followed by a translation.
#[derive(Clone, Copy, Debug, PartialEq, Eq, Structural)]
pub struct Isometry3 {
    pub translation: Vector3,
    pub rotation: Quaternion,
}

/// Four single-precision components, each as its bit pattern.
#[derive(Clone, Copy, Debug, PartialEq, Eq, Structural)]
pub struct Vector4 {
    pub x: u32,
    pub y: u32,
    pub z: u32,
    pub w: u32,
}

/// A 4x4 matrix, held by its columns.
#[derive(Clone, Copy, Debug, PartialEq, Eq, Structural)]
pub struct Matrix4 {
    pub c0: Vector4,
    pub c1: Vector4,
    pub c2: Vector4,
    pub c3: Vector4,
}

/// A camera: view matrix, projection matrix and eye position.
#[derive(Clone, Copy, Debug, PartialEq, Eq, Structural)]
pub struct Camera {
    pub v: Matrix4,
    pub p: Matrix4,
    pub eye: Vector3,
}

/// An RGBA colour, each channel as its bit pattern.
#[derive(Clone, Copy, Debug, PartialEq, Eq, Structural)]
pub struct Color {
    pub r: u32,
    pub g: u32,
    pub b: u32,
    pub a: u32,
}

impl Vector3 {
    /// The vector with all three components equal to `bits`.
    pub fn splat(bits: u32) -> (v: Vector3)
        ensures
            v == (Vector3 { x: bits, y: bits, z: bits }),
    {
        Vector3 { x: bits, y: bits, z: bits }
    }
}

impl Isometry3 {
    /// The pose that moves nothing: zero translation, no rotation.
    pub open spec fn spec_identity() -> Isometry3 {
        Isometry3 {
            translation: Vector3 { x: ZERO, y: ZERO, z: ZERO },
            rotation: Quaternion { w: ONE, i: ZERO, j: ZERO, k: ZERO },
        }
    }

    /// The pose that moves nothing.
    pub fn identity() -> (p: Isometry3)
        ensures
            p == Isometry3::spec_identity(),
    {
        Isometry3 {
            translation: Vector3 { x: ZERO, y: ZERO, z: ZERO },
            rotation: Quaternion { w: ONE, i: ZERO, j: ZERO, k: ZERO },
        }
    }
}

} // verus!
