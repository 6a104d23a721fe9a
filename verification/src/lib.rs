//! Hierarchical command dispatch for a mutable, tree-structured document.
//!
//! An [`IDWrap`](idwrap::IDWrap) envelope pairs a numeric identifier with a
//! command payload. Dispatch resolves the addressed child inside its parent,
//! applies the payload to it, and — for commands entering at the root
//! container — records the original envelope in the container's history log.

use vstd::prelude::*;

pub mod codec;
pub mod error;
pub mod handler;
pub mod idwrap;
pub mod model;
pub mod resolve;

verus! {

/// Numeric identifier used to address a child inside its parent.
pub type IDType = u64;

} // verus!
