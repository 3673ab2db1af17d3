//! The types that a checked expression can have.

use vstd::prelude::*;

verus! {

#[derive(Debug, Clone, Copy, PartialEq, Eq, Structural)]
pub enum Type {
    Int,
    Bool,
    Void,
    /// Not yet decided: what every expression has until it is checked.
    Unresolved,
    Error,
}

} // verus!
