//! Lights, and the light a frame falls back to when the scene has none.

use vstd::prelude::*;
use crate::value::{Vector3, FIFTH, HALF, MINUS_TWO_THIRDS, ONE, THIRD, TWO_THIRDS};

verus! {

/// A light that shines along one direction everywhere.
#[derive(Clone, Copy, Debug, PartialEq, Eq, Structural)]
pub struct DirectionalLight {
    pub direction: Vector3,
    pub ambient: Vector3,
    pub diffuse: Vector3,
    pub specular: Vector3,
}

/// A light that shines from one position.
#[derive(Clone, Copy, Debug, PartialEq, Eq, Structural)]
pub struct PointLight {
    pub position: Vector3,
    pub ambient: Vector3,
    pub diffuse: Vector3,
    pub specular: Vector3,
}

/// A light component.
#[derive(Clone, Copy, Debug, PartialEq, Eq, Structural)]
pub enum Light {
    Directional(DirectionalLight),
    Point(PointLight),
}

/// The light of a frame whose scene defines none: direction `(0.5, -1, 1)`
/// scaled to unit length, ambient `0.2`, diffuse `0.5`, specular `1`.
pub open spec fn default_light() -> DirectionalLight {
    DirectionalLight {
        direction: Vector3 { x: THIRD, y: MINUS_TWO_THIRDS, z: TWO_THIRDS },
        ambient: Vector3 { x: FIFTH, y: FIFTH, z: FIFTH },
        diffuse: Vector3 { x: HALF, y: HALF, z: HALF },
        specular: Vector3 { x: ONE, y: ONE, z: ONE },
    }
}

impl DirectionalLight {
    /// The light of a frame whose scene defines none.
    pub fn fallback() -> (light: DirectionalLight)
        ensures
            light == default_light(),
    {
        DirectionalLight {
            direction: Vector3 { x: THIRD, y: MINUS_TWO_THIRDS, z: TWO_THIRDS },
            ambient: Vector3::splat(FIFTH),
            diffuse: Vector3::splat(HALF),
            specular: Vector3::splat(ONE),
        }
    }
}

impl Light {
    /// The directional light held, if this is one.
    pub open spec fn spec_directional(self) -> Option<DirectionalLight> {
        match self {
            Light::Directional(d) => Some(d),
            Light::Point(_) => None,
        }
    }

    /// The directional light held, if this is one.
    pub fn directional(&self) -> (d: Option<DirectionalLight>)
        ensures
            d == self.spec_directional(),
    {
        match self {
            Light::Directional(d) => Some(*d),
            Light::Point(_) => None,
        }
    }

    /// The directional light that a draw call is lit by: the light itself
    /// if it is directional, the fallback light otherwise.
    pub open spec fn effective(self) -> DirectionalLight {
        match self {
            Light::Directional(d) => d,
            Light::Point(_) => default_light(),
        }
    }
}

} // verus!
