use protos::ai::add_cube::{AddCubeAction as OldAction, AddCubeInput as OldInput, AddCubeUiState};
use protos::ai::platform::{AddPlatformAction, AddPlatformInput, AddPlatformUiState};
use protos::anim::rig::KiJointType;
use protos::ui::add_cube::{AddCubeAction, AddCubeInput, AddCubeModeState, AddCubeUiState as CubeSettings};
use protos::ui::side_panel::{ui_mode_toggle, UiMode};
use protos::ui::transform_gizmo::{GizmoAxis, GizmoConstraint, GizmoPlane};

fn input(mode_active: bool, mouse_over: bool, clicked: bool, found: bool) -> AddCubeInput {
    AddCubeInput { mode_active, mouse_over, has_ray: true, clicked, found }
}

#[test]
fn add_cube_builds_a_cube() {
    let s = AddCubeModeState::Inactive;
    let (s, a) = s.step(input(true, false, false, false));
    assert_eq!((s, a), (AddCubeModeState::PickP0, AddCubeAction::Nothing));
    let (s, a) = s.step(input(true, false, true, true));
    assert_eq!((s, a), (AddCubeModeState::PickP1, AddCubeAction::StartCube));
    let (s, a) = s.step(input(true, false, false, true));
    assert_eq!((s, a), (AddCubeModeState::PickP1, AddCubeAction::SetP1));
    let (s, a) = s.step(input(true, false, true, true));
    assert_eq!((s, a), (AddCubeModeState::PickP2, AddCubeAction::SetP1));
    let (s, a) = s.step(input(true, false, true, true));
    assert_eq!((s, a), (AddCubeModeState::PickHeight, AddCubeAction::SetP2));
    let (s, a) = s.step(input(true, false, false, true));
    assert_eq!((s, a), (AddCubeModeState::PickHeight, AddCubeAction::SetHeight));
    let (s, a) = s.step(input(true, false, true, false));
    assert_eq!((s, a), (AddCubeModeState::Inactive, AddCubeAction::CreateCube));
}

#[test]
fn add_cube_waits_and_clears() {
    // a click that hits nothing does nothing
    assert_eq!(
        AddCubeModeState::PickP0.step(input(true, false, true, false)),
        (AddCubeModeState::PickP0, AddCubeAction::Nothing)
    );
    // the mouse over the panel stops picking
    assert_eq!(
        AddCubeModeState::PickP1.step(input(true, true, true, true)),
        (AddCubeModeState::PickP1, AddCubeAction::Nothing)
    );
    // no ray, no picking
    let no_ray = AddCubeInput { mode_active: true, mouse_over: false, has_ray: false, clicked: true, found: true };
    assert_eq!(AddCubeModeState::PickP2.step(no_ray), (AddCubeModeState::PickP2, AddCubeAction::Nothing));
    // leaving the mode clears a cube in progress
    assert_eq!(
        AddCubeModeState::PickP2.step(input(false, false, false, false)),
        (AddCubeModeState::Inactive, AddCubeAction::Clear)
    );
    assert_eq!(
        AddCubeModeState::Inactive.step(input(false, false, true, true)),
        (AddCubeModeState::Inactive, AddCubeAction::Nothing)
    );
    assert_eq!(CubeSettings::default().joint_type, KiJointType::Revolute);
}

#[test]
fn old_add_cube_machine() {
    let i = |clicked, found| OldInput { mode_active: true, mouse_over: false, has_ray: true, clicked, found };
    let (s, a) = AddCubeUiState::Inactive.step(i(true, true));
    assert_eq!((s, a), (AddCubeUiState::PickAttachP1, OldAction::StartCube));
    let (s, _) = s.step(i(true, true));
    let (s, _) = s.step(i(true, true));
    assert_eq!(s, AddCubeUiState::PickHeight);
    assert_eq!(s.step(i(true, false)), (AddCubeUiState::Inactive, OldAction::CreateCube));
}

#[test]
fn add_platform_machine() {
    let i = |clicked, found, length_found| AddPlatformInput {
        add_platform: true,
        right_clicked: false,
        has_ray: true,
        clicked,
        found,
        length_found,
    };
    let s = AddPlatformUiState::PickAttachP0;
    assert_eq!(s.step(i(false, true, false)), (s, AddPlatformAction::Nothing));
    let (s, a) = s.step(i(true, true, false));
    assert_eq!((s, a), (AddPlatformUiState::PickAttachP1, AddPlatformAction::StartPlatform));
    let (s, a) = s.step(i(true, true, false));
    assert_eq!((s, a), (AddPlatformUiState::PickLength, AddPlatformAction::SetP1));
    assert_eq!(s.step(i(false, true, true)), (s, AddPlatformAction::SetLength));
    assert_eq!(s.step(i(false, true, false)), (s, AddPlatformAction::Nothing));
    assert_eq!(s.step(i(true, true, false)), (AddPlatformUiState::PickAttachP0, AddPlatformAction::CreatePlatform));
    let cancel = AddPlatformInput { right_clicked: true, ..i(true, true, true) };
    assert_eq!(s.step(cancel), (AddPlatformUiState::PickAttachP0, AddPlatformAction::Cancel));
    let off = AddPlatformInput { add_platform: false, ..cancel };
    assert_eq!(s.step(off), (s, AddPlatformAction::Nothing));
}

#[test]
fn mode_toggle() {
    let mut m = UiMode::Select;
    ui_mode_toggle(&mut m, UiMode::ShootBalls, true);
    assert_eq!(m, UiMode::ShootBalls);
    ui_mode_toggle(&mut m, UiMode::AddFox, false);
    assert_eq!(m, UiMode::ShootBalls);
    ui_mode_toggle(&mut m, UiMode::ShootBalls, false);
    assert_eq!(m, UiMode::Select);
}

#[test]
fn gizmo_rotation_parts() {
    assert!(GizmoConstraint::Plane { plane: GizmoPlane::XY, is_rotation: true }.is_rotation());
    assert!(!GizmoConstraint::Plane { plane: GizmoPlane::Camera, is_rotation: false }.is_rotation());
    assert!(!GizmoConstraint::Axis(GizmoAxis::Z).is_rotation());
}
