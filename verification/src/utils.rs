//! Small helpers shared across the crate.

use vstd::prelude::*;

verus! {

/// A multi purpose enum to differentiate inputs from outputs.
#[derive(Debug, PartialEq, Eq, Structural, Copy, Clone)]
pub enum Io {
    Input,
    Output,
}

} // verus!
