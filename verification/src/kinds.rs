//! The kinds of lights, materials and ray-tracing occluders.
use vstd::prelude::*;

verus! {

/// The kind of a light source.
#[derive(Clone, Copy, Debug, PartialEq, Eq, Structural)]
pub enum LightType {
    /// An infinitely distant light shining along one direction.
    Directional,
    /// A positional light with inverse-square falloff.
    Point,
    /// A positional light restricted to a cone.
    Spot,
}

impl Default for LightType {
    /// `Directional`.
    fn default() -> (r: LightType)
        ensures
            r == LightType::Directional,
    {
        LightType::Directional
    }
}

/// The shading model of a material.
#[derive(Clone, Copy, Debug, PartialEq, Eq, Structural)]
pub enum MaterialKind {
    /// Diffuse only.
    Lambert,
    /// Diffuse plus a specular highlight.
    Phong,
    /// Physically based rendering, kept for callers to branch on.
    Pbr,
}

impl Default for MaterialKind {
    /// `Lambert`.
    fn default() -> (r: MaterialKind)
        ensures
            r == MaterialKind::Lambert,
    {
        MaterialKind::Lambert
    }
}

/// The shape of a ray-tracing occluder.
#[derive(Clone, Copy, Debug, PartialEq, Eq, Structural)]
pub enum OccluderKind {
    /// A sphere: a center and a radius.
    Sphere,
    /// An axis-aligned box: a minimum and a maximum corner.
    Aabb,
}

impl Default for OccluderKind {
    /// `Sphere`.
    fn default() -> (r: OccluderKind)
        ensures
            r == OccluderKind::Sphere,
    {
        OccluderKind::Sphere
    }
}

} // verus!
