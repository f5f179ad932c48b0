//! The logic of a terminal program that runs a fleet of coding sessions: what
//! git says about their directories, how much of the account's limits is spent,
//! and everything the screen shows.
//!
//! The library works on plain values. Running git, reading files, the clock and
//! the terminal itself are left to the program around it.

pub mod dialog;
pub mod format;
pub mod git;
pub mod git_laws;
pub mod help;
pub mod input;
pub mod json;
pub mod layout;
pub mod limits;
pub mod model;
pub mod names;
pub mod paint;
pub mod pane;
pub mod scan;
pub mod screen;
pub mod screen_laws;
pub mod sidebar;
pub mod status;
pub mod text;
pub mod theme;
pub mod time;
pub mod timestamp;
pub mod usage;
pub mod usage_laws;
