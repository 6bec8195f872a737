//! Export of the collected metrics.

pub mod rrdtool;
pub mod csv;
pub mod rrd;
