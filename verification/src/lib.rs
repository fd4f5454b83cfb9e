//! Housekeeping logic for a Windows developer workstation: what to report,
//! what command lines to build and how to judge what external tools answered.

pub mod cache;
pub mod dashboard;
pub mod detect;
pub mod disk;
pub mod docker;
pub mod env;
pub mod json;
pub mod log;
pub mod projects;
pub mod routine;
pub mod schedule;
pub mod size;
pub mod startup;
pub mod text;
pub mod time;
pub mod util;
