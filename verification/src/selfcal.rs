//! Self-calibration: the decisions of a calibration run.
//!
//! A run drives the joints one tick at a time and judges what comes back. The
//! arithmetic on angles, speeds and currents is done outside; what is decided
//! on it is decided here.
pub mod adaptive;
pub mod drives;
pub mod entries;
pub mod events;
pub mod gains;
pub mod hold_velocity;
pub mod homing;
pub mod identification;
pub mod limits;
pub mod lines;
pub mod mechanics;
pub mod motion;
pub mod parking;
pub mod patch;
pub mod planning;
pub mod run;
pub mod search;
pub mod startup;
pub mod tune;
pub mod vigil;
