//! Command byte wrapper used by the generic protocol interface.

use vstd::prelude::*;

verus! {

/// A single command byte.
#[derive(PartialEq, Eq, Structural, PartialOrd, Ord, Clone, Copy, Debug, Hash)]
pub struct Command(pub u8);

impl Command {
    pub fn new(field_val: u8) -> (r: Command)
        ensures
            r == Command(field_val),
    {
        Command(field_val)
    }
}

} // verus!
