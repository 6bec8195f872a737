//! Process monitor library: metric names, metric specifications, table
//! geometry, menus and the bookkeeping behind a procfs monitor.

pub mod strings;
pub mod agg;
pub mod format;
pub mod metrics;
pub mod parsers;
pub mod display;
pub mod console;
pub mod clock;
pub mod process;
pub mod utils;
pub mod cfg;
pub mod mocks;
pub mod export;
pub mod application;
