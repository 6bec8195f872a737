//! Stand-ins for system resources.

pub mod fs;
