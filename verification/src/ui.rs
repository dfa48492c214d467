pub mod add_cube;
pub mod selection;
pub mod side_panel;
pub mod transform_gizmo;
