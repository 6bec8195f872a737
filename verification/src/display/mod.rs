//! Display devices.

use vstd::prelude::*;

pub mod null;
pub mod term;
pub mod text;

verus! {

/// Kind of data shown in the process pane.
#[derive(Debug, Clone, Copy, PartialEq, Eq, Structural)]
pub enum DataKind {
    Details,
    Environment,
    Files,
    Limits,
    _Maps,
    _Threads,
}

/// Kind of pane shown by a display device.
#[derive(Debug, Clone, Copy, PartialEq, Eq, Structural)]
pub enum PaneKind {
    Main,
    Process(DataKind),
    Help,
}

} // verus!
