use vstd::prelude::*;

verus! {

/// An axis of a transform gizmo.
#[derive(Debug, Clone, Copy, PartialEq, Eq, Structural)]
pub enum GizmoAxis {
    X,
    Y,
    Z,
}

/// A plane of a transform gizmo; `Camera` faces the camera.
#[derive(Debug, Clone, Copy, PartialEq, Eq, Structural)]
pub enum GizmoPlane {
    XY,
    YZ,
    ZX,
    Camera,
}

/// How dragging a part of the gizmo moves the object: along an axis, or in
/// a plane (turning it, for a rotation part).
#[derive(Debug, Clone, Copy, PartialEq, Eq, Structural)]
pub enum GizmoConstraint {
    Axis(GizmoAxis),
    Plane { plane: GizmoPlane, is_rotation: bool },
}

impl GizmoConstraint {
    /// Dragging this part turns the object.
    pub fn is_rotation(&self) -> (r: bool)
        ensures
            r == (*self matches GizmoConstraint::Plane { is_rotation: true, .. }),
    {
        if let GizmoConstraint::Plane { plane: _, is_rotation } = self {
            *is_rotation
        } else {
            false
        }
    }
}

} // verus!
