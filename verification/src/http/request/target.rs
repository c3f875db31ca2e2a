//! The shapes that the target of a request can take.

use vstd::prelude::*;

verus! {

/// The four forms of a request target.
#[derive(Debug, Copy, Clone, Eq, PartialEq, Structural)]
pub enum Form {
    Origin,
    Absolute,
    Authority,
    Asterisk,
}

} // verus!
