use vstd::prelude::*;

verus! {

/// How a joint attaches a bone to the bone it was built on.
#[derive(Debug, Copy, Clone, PartialEq, Eq, Structural)]
pub enum KiJointType {
    Revolute,
    Spherical,
}

} // verus!
