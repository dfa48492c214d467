pub mod ai;
pub mod anim;
pub mod grid;
pub mod sparse_grid;
pub mod ui;
pub mod slow_unit;
