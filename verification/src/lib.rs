//! Verified core of an interactive Noir exercise runner.

pub mod course;
pub mod exercise;
pub mod messages;
pub mod nargo;
pub mod pattern;
pub mod text;
pub mod verify;
pub mod watch;
