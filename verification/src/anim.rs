pub mod rig;
