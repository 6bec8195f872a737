//! Device that displays nothing.

use vstd::prelude::*;

verus! {

/// Null device
pub struct NullDevice {}

impl NullDevice {
    /// A device on which nothing is ever rendered.
    pub fn new() -> (d: Self)
        ensures
            d == (NullDevice {}),
    {
        Self {}
    }
}

} // verus!
