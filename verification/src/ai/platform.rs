use vstd::prelude::*;

verus! {

/// Where the add-platform tool stands: picking the attachment point, the
/// far corner, or the length of the new platform.
#[derive(Debug, Copy, Clone, PartialEq, Eq, Structural)]
pub enum AddPlatformUiState {
    PickAttachP0,
    PickAttachP1,
    PickLength,
}

/// What happened in a frame, as far as the add-platform tool cares.
#[derive(Debug, Copy, Clone)]
pub struct AddPlatformInput {
    /// The tool is switched on in the panel.
    pub add_platform: bool,
    /// The right button was just pressed.
    pub right_clicked: bool,
    /// The camera has a mouse ray.
    pub has_ray: bool,
    /// The left button was just pressed.
    pub clicked: bool,
    /// The probe of the current step succeeded: for the attachment point,
    /// the ray hit an object and the preview material exists; for the far
    /// corner, the ray meets the attachment plane; for the length, the
    /// attachment object and the preview exist.
    pub found: bool,
    /// For the length: the ray meets both length planes.
    pub length_found: bool,
}

/// What the tool does in a frame.
#[derive(Debug, Copy, Clone, PartialEq, Eq, Structural)]
pub enum AddPlatformAction {
    Nothing,
    /// Forget the platform being built, remove its preview, and switch the
    /// tool off.
    Cancel,
    /// Record the attachment point and show the preview.
    StartPlatform,
    /// Record the far corner.
    SetP1,
    /// Record the length.
    SetLength,
    /// Build the platform, then forget it (the tool stays on).
    CreatePlatform,
}

/// The state after a platform is built or abandoned.
pub open spec fn initial() -> AddPlatformUiState {
    AddPlatformUiState::PickAttachP0
}

impl AddPlatformUiState {
    /// The next state and the action for input `e`.
    pub open spec fn next(self, e: AddPlatformInput) -> (AddPlatformUiState, AddPlatformAction) {
        if !e.add_platform {
            (self, AddPlatformAction::Nothing)
        } else if e.right_clicked {
            (initial(), AddPlatformAction::Cancel)
        } else if !e.has_ray {
            (self, AddPlatformAction::Nothing)
        } else {
            match self {
                AddPlatformUiState::PickAttachP0 => if e.clicked && e.found {
                    (AddPlatformUiState::PickAttachP1, AddPlatformAction::StartPlatform)
                } else {
                    (self, AddPlatformAction::Nothing)
                },
                AddPlatformUiState::PickAttachP1 => if !e.found {
                    (self, AddPlatformAction::Nothing)
                } else if e.clicked {
                    (AddPlatformUiState::PickLength, AddPlatformAction::SetP1)
                } else {
                    (self, AddPlatformAction::SetP1)
                },
                AddPlatformUiState::PickLength => if !e.found {
                    (self, AddPlatformAction::Nothing)
                } else if e.clicked {
                    (initial(), AddPlatformAction::CreatePlatform)
                } else if e.length_found {
                    (self, AddPlatformAction::SetLength)
                } else {
                    (self, AddPlatformAction::Nothing)
                },
            }
        }
    }

    /// One frame of the add-platform tool.
    pub fn step(self, e: AddPlatformInput) -> (r: (AddPlatformUiState, AddPlatformAction))
        ensures
            r == self.next(e),
    {
        if !e.add_platform {
            return (self, AddPlatformAction::Nothing);
        }
        if e.right_clicked {
            return (AddPlatformUiState::PickAttachP0, AddPlatformAction::Cancel);
        }
        if !e.has_ray {
            return (self, AddPlatformAction::Nothing);
        }
        match self {
            AddPlatformUiState::PickAttachP0 => {
                if e.clicked && e.found {
                    (AddPlatformUiState::PickAttachP1, AddPlatformAction::StartPlatform)
                } else {
                    (self, AddPlatformAction::Nothing)
                }
            },
            AddPlatformUiState::PickAttachP1 => {
                if !e.found {
                    (self, AddPlatformAction::Nothing)
                } else if e.clicked {
                    (AddPlatformUiState::PickLength, AddPlatformAction::SetP1)
                } else {
                    (self, AddPlatformAction::SetP1)
                }
            },
            AddPlatformUiState::PickLength => {
                if !e.found {
                    (self, AddPlatformAction::Nothing)
                } else if e.clicked {
                    (AddPlatformUiState::PickAttachP0, AddPlatformAction::CreatePlatform)
                } else if e.length_found {
                    (self, AddPlatformAction::SetLength)
                } else {
                    (self, AddPlatformAction::Nothing)
                }
            },
        }
    }

    /// The position of a state in the building order.
    pub open spec fn rank(self) -> int {
        match self {
            AddPlatformUiState::PickAttachP0 => 0,
            AddPlatformUiState::PickAttachP1 => 1,
            AddPlatformUiState::PickLength => 2,
        }
    }
}

/// With the tool switched off nothing happens; a right click abandons the
/// platform and starts over.
pub proof fn law_off_and_cancel(s: AddPlatformUiState, e: AddPlatformInput)
    ensures
        !e.add_platform ==> s.next(e) == (s, AddPlatformAction::Nothing),
        e.add_platform && e.right_clicked ==> s.next(e) == (initial(), AddPlatformAction::Cancel),
{
}

/// The tool moves one step forward in the building order only on a click,
/// and a click on the length builds the platform and starts over.
pub proof fn law_builds_in_order(s: AddPlatformUiState, e: AddPlatformInput)
    requires
        e.add_platform,
        !e.right_clicked,
    ensures
        s.next(e).0 == s || (e.clicked && s.next(e).0.rank() == s.rank() + 1) || (e.clicked && s
            == AddPlatformUiState::PickLength && s.next(e) == (
            initial(),
            AddPlatformAction::CreatePlatform,
        )),
        s.next(e).1 == AddPlatformAction::CreatePlatform ==> s == AddPlatformUiState::PickLength,
{
}

/// While the tool is on and the mouse gives a ray, what a frame does in each
/// state: a click on an object starts a platform; while the far corner or
/// the length is picked, every frame in which the probe succeeds records it,
/// whether or not the button was pressed, and a click moves on (or builds);
/// a failed probe does nothing.
pub proof fn law_probe_actions(s: AddPlatformUiState, e: AddPlatformInput)
    requires
        e.add_platform,
        !e.right_clicked,
        e.has_ray,
    ensures
        s == AddPlatformUiState::PickAttachP0 ==> s.next(e) == (if e.clicked && e.found {
            (AddPlatformUiState::PickAttachP1, AddPlatformAction::StartPlatform)
        } else {
            (AddPlatformUiState::PickAttachP0, AddPlatformAction::Nothing)
        }),
        s == AddPlatformUiState::PickAttachP1 ==> s.next(e).1 == (if e.found {
            AddPlatformAction::SetP1
        } else {
            AddPlatformAction::Nothing
        }),
        s == AddPlatformUiState::PickAttachP1 ==> s.next(e).0 == (if e.found && e.clicked {
            AddPlatformUiState::PickLength
        } else {
            AddPlatformUiState::PickAttachP1
        }),
        s == AddPlatformUiState::PickLength && e.found && e.clicked ==> s.next(e) == (
            AddPlatformUiState::PickAttachP0,
            AddPlatformAction::CreatePlatform,
        ),
        s == AddPlatformUiState::PickLength && !(e.found && e.clicked) ==> s.next(e) == (
            AddPlatformUiState::PickLength,
            if e.found && e.length_found {
                AddPlatformAction::SetLength
            } else {
                AddPlatformAction::Nothing
            },
        ),
{
}

} // verus!
