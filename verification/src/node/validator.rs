//! Errors of a node as a whole.

use vstd::prelude::*;

verus! {

/// Why a node could not start.
#[derive(Debug, Clone)]
pub enum NodeError {
    /// The genesis configuration could not be read or is not valid.
    Genesis(String),
    /// The storage configuration could not be read or is not valid.
    Storage(String),
    /// The node could not be set up.
    Initialization(String),
}

} // verus!
