use vstd::prelude::*;


verus! {

/// Where the add-cube tool stands: off, or picking the first corner, the
/// second corner, the depth, or the height of the new cube.
#[derive(Debug, Copy, Clone, PartialEq, Eq, Structural)]
pub enum AddCubeUiState {
    Inactive,
    PickAttachP0,
    PickAttachP1,
    PickAttachP2,
    PickHeight,
}

/// What happened in a frame, as far as the add-cube tool cares.
#[derive(Debug, Copy, Clone)]
pub struct AddCubeInput {
    /// The tool's mode is selected in the panel.
    pub mode_active: bool,
    /// The mouse is over the panel.
    pub mouse_over: bool,
    /// The camera has a mouse ray.
    pub has_ray: bool,
    /// The left button was just pressed.
    pub clicked: bool,
    /// The probe of the current step succeeded: for the first corner, the
    /// ray hit an object; for the second corner, the ray meets the picking
    /// plane; for the depth, it does and the outline exists; for the height, the ray meets both height planes.
    pub found: bool,
}

/// What the tool does in a frame.
#[derive(Debug, Copy, Clone, PartialEq, Eq, Structural)]
pub enum AddCubeAction {
    Nothing,
    /// Forget the cube being built and remove its outline.
    Clear,
    /// Record the first corner and show the outline.
    StartCube,
    /// Record the second corner.
    SetP1,
    /// Record the depth.
    SetP2,
    /// Record the height.
    SetHeight,
    /// Build the cube, then forget it as `Clear` does.
    CreateCube,
}

impl AddCubeUiState {
    /// The state once the tool is on: an inactive tool starts by picking the
    /// first corner.
    pub open spec fn entered(self) -> AddCubeUiState {
        if self == AddCubeUiState::Inactive {
            AddCubeUiState::PickAttachP0
        } else {
            self
        }
    }

    pub fn enter(self) -> (r: AddCubeUiState)
        ensures
            r == self.entered(),
    {
        if self == AddCubeUiState::Inactive {
            AddCubeUiState::PickAttachP0
        } else {
            self
        }
    }

    /// The next state and the action for input `e`.
    pub open spec fn next(self, e: AddCubeInput) -> (AddCubeUiState, AddCubeAction) {
        if !e.mode_active {
            (
                AddCubeUiState::Inactive,
                if self != AddCubeUiState::Inactive {
                    AddCubeAction::Clear
                } else {
                    AddCubeAction::Nothing
                },
            )
        } else {
            let s = self.entered();
            if e.mouse_over || !e.has_ray {
                (s, AddCubeAction::Nothing)
            } else {
                match s {
                    AddCubeUiState::PickAttachP0 => if e.clicked && e.found {
                        (AddCubeUiState::PickAttachP1, AddCubeAction::StartCube)
                    } else {
                        (s, AddCubeAction::Nothing)
                    },
                    AddCubeUiState::PickAttachP1 => if !e.found {
                        (s, AddCubeAction::Nothing)
                    } else if e.clicked {
                        (AddCubeUiState::PickAttachP2, AddCubeAction::SetP1)
                    } else {
                        (s, AddCubeAction::SetP1)
                    },
                    AddCubeUiState::PickAttachP2 => if !e.found {
                        (s, AddCubeAction::Nothing)
                    } else if e.clicked {
                        (AddCubeUiState::PickHeight, AddCubeAction::SetP2)
                    } else {
                        (s, AddCubeAction::SetP2)
                    },
                    _ => if e.clicked {
                        (AddCubeUiState::Inactive, AddCubeAction::CreateCube)
                    } else if e.found {
                        (s, AddCubeAction::SetHeight)
                    } else {
                        (s, AddCubeAction::Nothing)
                    },
                }
            }
        }
    }

    /// One frame of the add-cube tool.
    pub fn step(self, e: AddCubeInput) -> (r: (AddCubeUiState, AddCubeAction))
        ensures
            r == self.next(e),
    {
        if !e.mode_active {
            let action = if self != AddCubeUiState::Inactive {
                AddCubeAction::Clear
            } else {
                AddCubeAction::Nothing
            };
            return (AddCubeUiState::Inactive, action);
        }
        let s = self.enter();
        if e.mouse_over || !e.has_ray {
            return (s, AddCubeAction::Nothing);
        }
        match s {
            AddCubeUiState::PickAttachP0 => {
                if e.clicked && e.found {
                    (AddCubeUiState::PickAttachP1, AddCubeAction::StartCube)
                } else {
                    (s, AddCubeAction::Nothing)
                }
            },
            AddCubeUiState::PickAttachP1 => {
                if !e.found {
                    (s, AddCubeAction::Nothing)
                } else if e.clicked {
                    (AddCubeUiState::PickAttachP2, AddCubeAction::SetP1)
                } else {
                    (s, AddCubeAction::SetP1)
                }
            },
            AddCubeUiState::PickAttachP2 => {
                if !e.found {
                    (s, AddCubeAction::Nothing)
                } else if e.clicked {
                    (AddCubeUiState::PickHeight, AddCubeAction::SetP2)
                } else {
                    (s, AddCubeAction::SetP2)
                }
            },
            _ => {
                if e.clicked {
                    (AddCubeUiState::Inactive, AddCubeAction::CreateCube)
                } else if e.found {
                    (s, AddCubeAction::SetHeight)
                } else {
                    (s, AddCubeAction::Nothing)
                }
            },
        }
    }

    /// The position of a state in the building order.
    pub open spec fn rank(self) -> int {
        match self {
            AddCubeUiState::Inactive => 0,
            AddCubeUiState::PickAttachP0 => 1,
            AddCubeUiState::PickAttachP1 => 2,
            AddCubeUiState::PickAttachP2 => 3,
            AddCubeUiState::PickHeight => 4,
        }
    }
}

/// Leaving the mode turns the tool off, and clears exactly when a cube was
/// in progress.
pub proof fn law_leaving_mode_clears(s: AddCubeUiState, e: AddCubeInput)
    requires
        !e.mode_active,
    ensures
        s.next(e).0 == AddCubeUiState::Inactive,
        (s.next(e).1 == AddCubeAction::Clear) == (s != AddCubeUiState::Inactive),
{
}

/// While the tool is on, it moves one step forward in the building order
/// only on a click, never back, and a click on the height builds the cube
/// and starts over; with the mouse over the panel nothing is picked.
pub proof fn law_builds_in_order(s: AddCubeUiState, e: AddCubeInput)
    requires
        e.mode_active,
    ensures
        s.next(e).0 == s.entered() || (e.clicked && s.next(e).0.rank() == s.entered().rank() + 1)
            || (e.clicked && s.entered() == AddCubeUiState::PickHeight && s.next(e).0
            == AddCubeUiState::Inactive && s.next(e).1 == AddCubeAction::CreateCube),
        e.mouse_over ==> s.next(e) == (s.entered(), AddCubeAction::Nothing),
        s.next(e).1 == AddCubeAction::CreateCube ==> s.entered() == AddCubeUiState::PickHeight,
{
}

/// With the mode on, the mouse off the panel and a ray, what a frame does
/// in each state: a click on an object starts a cube; while the second
/// corner or the depth is picked, every frame in which the ray meets the
/// picking plane records the point, whether or not the button was pressed,
/// and a click moves on; while the height is picked, a click builds the cube
/// and otherwise a successful probe records the height.
pub proof fn law_probe_actions(s: AddCubeUiState, e: AddCubeInput)
    requires
        e.mode_active,
        !e.mouse_over,
        e.has_ray,
    ensures
        s.entered() == AddCubeUiState::PickAttachP0 ==> s.next(e) == (if e.clicked && e.found {
            (AddCubeUiState::PickAttachP1, AddCubeAction::StartCube)
        } else {
            (AddCubeUiState::PickAttachP0, AddCubeAction::Nothing)
        }),
        s == AddCubeUiState::PickAttachP1 ==> s.next(e).1 == (if e.found { AddCubeAction::SetP1 } else { AddCubeAction::Nothing }),
        s == AddCubeUiState::PickAttachP1 ==> s.next(e).0 == (if e.found && e.clicked { AddCubeUiState::PickAttachP2 } else { AddCubeUiState::PickAttachP1 }),
        s == AddCubeUiState::PickAttachP2 ==> s.next(e).1 == (if e.found { AddCubeAction::SetP2 } else { AddCubeAction::Nothing }),
        s == AddCubeUiState::PickAttachP2 ==> s.next(e).0 == (if e.found && e.clicked { AddCubeUiState::PickHeight } else { AddCubeUiState::PickAttachP2 }),
        s == AddCubeUiState::PickHeight ==> s.next(e) == (if e.clicked {
            (AddCubeUiState::Inactive, AddCubeAction::CreateCube)
        } else if e.found {
            (AddCubeUiState::PickHeight, AddCubeAction::SetHeight)
        } else {
            (AddCubeUiState::PickHeight, AddCubeAction::Nothing)
        }),
{
}

} // verus!
