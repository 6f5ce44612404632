//! The core of an arcade flight-combat simulation: flight control, missile
//! guidance, the chase camera and the tactical displays, as pure frame steps
//! over fixed-point numbers.
//!
//! Every quantity is a whole number of millionths, so that each step gives
//! the same result on every machine and each contract can say exactly what
//! that result is. What needs trigonometry or a projection matrix is left to
//! the caller, who hands the engine a rotation or a point and gets plain
//! values back: `turn_deltas` and `kinematic_movement`, `camera_look_angles`,
//! `camera_goal` and `camera_follow_player` are steps of such an exchange.

pub mod fixed;
pub mod vector;
pub mod rotation;
pub mod unit_length;
pub mod input;
pub mod player;
pub mod drone;
pub mod missile;
pub mod camera;
pub mod ui;
