use vstd::prelude::*;

use crate::anim::rig::KiJointType;

verus! {

/// The add-cube tool's settings.
pub struct AddCubeUiState {
    pub joint_type: KiJointType,
}

impl Default for AddCubeUiState {
    fn default() -> (r: Self)
        ensures
            r.joint_type == KiJointType::Revolute,
    {
        Self { joint_type: KiJointType::Revolute }
    }
}

/// Where the add-cube tool stands: off, or picking the first corner, the
/// second corner, the depth, or the height of the new cube.
#[derive(Debug, Copy, Clone, PartialEq, Eq, Structural)]
pub enum AddCubeModeState {
    Inactive,
    PickP0,
    PickP1,
    PickP2,
    PickHeight,
}

/// What happened in a frame, as far as the add-cube tool cares.
#[derive(Debug, Copy, Clone)]
pub struct AddCubeInput {
    /// The tool's mode is selected in the panel.
    pub mode_active: bool,
    /// The mouse is over the panel.
    pub mouse_over: bool,
    /// The camera has a mouse ray.
    pub has_ray: bool,
    /// The left button was just pressed.
    pub clicked: bool,
    /// The probe of the current step succeeded: for the first corner, the
    /// ray hit an object; for the second corner and the depth, the ray meets
    /// the picking plane; for the height, the ray meets both height planes.
    pub found: bool,
}

/// What the tool does in a frame.
#[derive(Debug, Copy, Clone, PartialEq, Eq, Structural)]
pub enum AddCubeAction {
    Nothing,
    /// Forget the cube being built and remove its outline.
    Clear,
    /// Record the first corner and show the outline.
    StartCube,
    /// Record the second corner.
    SetP1,
    /// Record the depth.
    SetP2,
    /// Record the height.
    SetHeight,
    /// Build the cube, then forget it as `Clear` does.
    CreateCube,
}

impl AddCubeModeState {
    /// The state once the tool is on: an inactive tool starts by picking the
    /// first corner.
    pub open spec fn entered(self) -> AddCubeModeState {
        if self == AddCubeModeState::Inactive {
            AddCubeModeState::PickP0
        } else {
            self
        }
    }

    pub fn enter(self) -> (r: AddCubeModeState)
        ensures
            r == self.entered(),
    {
        if self == AddCubeModeState::Inactive {
            AddCubeModeState::PickP0
        } else {
            self
        }
    }

    /// The next state and the action for input `e`.
    pub open spec fn next(self, e: AddCubeInput) -> (AddCubeModeState, AddCubeAction) {
        if !e.mode_active {
            (
                AddCubeModeState::Inactive,
                if self != AddCubeModeState::Inactive {
                    AddCubeAction::Clear
                } else {
                    AddCubeAction::Nothing
                },
            )
        } else {
            let s = self.entered();
            if e.mouse_over || !e.has_ray {
                (s, AddCubeAction::Nothing)
            } else {
                match s {
                    AddCubeModeState::PickP0 => if e.clicked && e.found {
                        (AddCubeModeState::PickP1, AddCubeAction::StartCube)
                    } else {
                        (s, AddCubeAction::Nothing)
                    },
                    AddCubeModeState::PickP1 => if !e.found {
                        (s, AddCubeAction::Nothing)
                    } else if e.clicked {
                        (AddCubeModeState::PickP2, AddCubeAction::SetP1)
                    } else {
                        (s, AddCubeAction::SetP1)
                    },
                    AddCubeModeState::PickP2 => if !e.found {
                        (s, AddCubeAction::Nothing)
                    } else if e.clicked {
                        (AddCubeModeState::PickHeight, AddCubeAction::SetP2)
                    } else {
                        (s, AddCubeAction::SetP2)
                    },
                    _ => if e.clicked {
                        (AddCubeModeState::Inactive, AddCubeAction::CreateCube)
                    } else if e.found {
                        (s, AddCubeAction::SetHeight)
                    } else {
                        (s, AddCubeAction::Nothing)
                    },
                }
            }
        }
    }

    /// One frame of the add-cube tool.
    pub fn step(self, e: AddCubeInput) -> (r: (AddCubeModeState, AddCubeAction))
        ensures
            r == self.next(e),
    {
        if !e.mode_active {
            let action = if self != AddCubeModeState::Inactive {
                AddCubeAction::Clear
            } else {
                AddCubeAction::Nothing
            };
            return (AddCubeModeState::Inactive, action);
        }
        let s = self.enter();
        if e.mouse_over || !e.has_ray {
            return (s, AddCubeAction::Nothing);
        }
        match s {
            AddCubeModeState::PickP0 => {
                if e.clicked && e.found {
                    (AddCubeModeState::PickP1, AddCubeAction::StartCube)
                } else {
                    (s, AddCubeAction::Nothing)
                }
            },
            AddCubeModeState::PickP1 => {
                if !e.found {
                    (s, AddCubeAction::Nothing)
                } else if e.clicked {
                    (AddCubeModeState::PickP2, AddCubeAction::SetP1)
                } else {
                    (s, AddCubeAction::SetP1)
                }
            },
            AddCubeModeState::PickP2 => {
                if !e.found {
                    (s, AddCubeAction::Nothing)
                } else if e.clicked {
                    (AddCubeModeState::PickHeight, AddCubeAction::SetP2)
                } else {
                    (s, AddCubeAction::SetP2)
                }
            },
            _ => {
                if e.clicked {
                    (AddCubeModeState::Inactive, AddCubeAction::CreateCube)
                } else if e.found {
                    (s, AddCubeAction::SetHeight)
                } else {
                    (s, AddCubeAction::Nothing)
                }
            },
        }
    }

    /// The position of a state in the building order.
    pub open spec fn rank(self) -> int {
        match self {
            AddCubeModeState::Inactive => 0,
            AddCubeModeState::PickP0 => 1,
            AddCubeModeState::PickP1 => 2,
            AddCubeModeState::PickP2 => 3,
            AddCubeModeState::PickHeight => 4,
        }
    }
}

/// Leaving the mode turns the tool off, and clears exactly when a cube was
/// in progress.
pub proof fn law_leaving_mode_clears(s: AddCubeModeState, e: AddCubeInput)
    requires
        !e.mode_active,
    ensures
        s.next(e).0 == AddCubeModeState::Inactive,
        (s.next(e).1 == AddCubeAction::Clear) == (s != AddCubeModeState::Inactive),
{
}

/// While the tool is on, it moves one step forward in the building order
/// only on a click, never back, and a click on the height builds the cube
/// and starts over; with the mouse over the panel nothing is picked.
pub proof fn law_builds_in_order(s: AddCubeModeState, e: AddCubeInput)
    requires
        e.mode_active,
    ensures
        s.next(e).0 == s.entered() || (e.clicked && s.next(e).0.rank() == s.entered().rank() + 1)
            || (e.clicked && s.entered() == AddCubeModeState::PickHeight && s.next(e).0
            == AddCubeModeState::Inactive && s.next(e).1 == AddCubeAction::CreateCube),
        e.mouse_over ==> s.next(e) == (s.entered(), AddCubeAction::Nothing),
        s.next(e).1 == AddCubeAction::CreateCube ==> s.entered() == AddCubeModeState::PickHeight,
{
}

/// With the mode on, the mouse off the panel and a ray, what a frame does
/// in each state: a click on an object starts a cube; while the second
/// corner or the depth is picked, every frame in which the ray meets the
/// picking plane records the point, whether or not the button was pressed,
/// and a click moves on; while the height is picked, a click builds the cube
/// and otherwise a successful probe records the height.
pub proof fn law_probe_actions(s: AddCubeModeState, e: AddCubeInput)
    requires
        e.mode_active,
        !e.mouse_over,
        e.has_ray,
    ensures
        s.entered() == AddCubeModeState::PickP0 ==> s.next(e) == (if e.clicked && e.found {
            (AddCubeModeState::PickP1, AddCubeAction::StartCube)
        } else {
            (AddCubeModeState::PickP0, AddCubeAction::Nothing)
        }),
        s == AddCubeModeState::PickP1 ==> s.next(e).1 == (if e.found { AddCubeAction::SetP1 } else { AddCubeAction::Nothing }),
        s == AddCubeModeState::PickP1 ==> s.next(e).0 == (if e.found && e.clicked { AddCubeModeState::PickP2 } else { AddCubeModeState::PickP1 }),
        s == AddCubeModeState::PickP2 ==> s.next(e).1 == (if e.found { AddCubeAction::SetP2 } else { AddCubeAction::Nothing }),
        s == AddCubeModeState::PickP2 ==> s.next(e).0 == (if e.found && e.clicked { AddCubeModeState::PickHeight } else { AddCubeModeState::PickP2 }),
        s == AddCubeModeState::PickHeight ==> s.next(e) == (if e.clicked {
            (AddCubeModeState::Inactive, AddCubeAction::CreateCube)
        } else if e.found {
            (AddCubeModeState::PickHeight, AddCubeAction::SetHeight)
        } else {
            (AddCubeModeState::PickHeight, AddCubeAction::Nothing)
        }),
{
}

} // verus!
