//! Kinds carried by scene components: how a rigid body moves and how a
//! camera projects.

use vstd::prelude::*;

verus! {

/// How a rigid body takes part in simulation.
#[derive(Debug, Clone, Copy, PartialEq, Eq, Structural)]
pub enum RigidBodyKind {
    Static,
    Kinematic,
    Dynamic,
}

/// Projection mode for the camera.
#[derive(Debug, Clone, Copy, PartialEq, Eq, Structural)]
pub enum ProjectionKind {
    Perspective,
    /// True orthographic (RTS / top-down).
    Orthographic,
    /// Perspective pitched for an isometric feel.
    Isometric,
}

impl Default for ProjectionKind {
    fn default() -> (k: Self)
        ensures
            k == ProjectionKind::Perspective,
    {
        ProjectionKind::Perspective
    }
}

} // verus!
