//! The decisions of a robot runtime daemon.
pub mod adapters;
pub mod bridge;
pub mod bytes;
pub mod calibrate;
pub mod collision_world;
pub mod daemon;
pub mod diagnostics;
pub mod execution_path;
pub mod gate;
pub mod grant;
pub mod housekeeping;
pub mod kin;
pub mod logging;
pub mod options;
pub mod paths;
pub mod runtime;
pub mod selfcal;
pub mod standoff;
pub mod stream;
pub mod teleport;
pub mod text;
