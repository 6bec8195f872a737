//! Processes: how they are named and described.

pub mod interpreters;
pub mod format;
pub mod collector;
pub mod stat;
pub mod managers;
pub mod forest;
