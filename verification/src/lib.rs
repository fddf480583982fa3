//! Interactive display selection and capability inference for a
//! full-screen gaming session launcher.
//!
//! The crate holds the verified core of the launcher: the heuristic
//! engine that turns decoded EDID text into a structured capability
//! record, the selection state machine that merges keyboard and
//! controller navigation events, and the pure argument assembly for
//! the compositor process.  Everything that touches a device, a file,
//! a terminal or a child process lives outside this crate and hands
//! plain values in and out.
#![verifier::loop_isolation(false)]

pub mod capabilities;
pub mod display;
pub mod hz;
pub mod input;
pub mod launch;
pub mod menu;
pub mod selection;
pub mod text;
pub mod ui;
