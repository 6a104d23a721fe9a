//! The single failure surfaced by the dispatch core: an identifier that
//! resolves to no child of the expected kind.

use vstd::prelude::*;

verus! {

/// The kind of entity a resolution expected to find.
#[derive(Clone, Copy, Debug, PartialEq, Eq, Structural)]
pub enum EntityKind {
    Workbench,
    Sketch,
}

/// Resolution failure: no child of kind `kind` carries identifier `id`.
///
/// It propagates unchanged through every dispatch level; intermediate levels
/// have no basis to recover or reinterpret it.
#[derive(Clone, Copy, Debug, PartialEq, Eq, Structural)]
pub struct NotFoundError {
    pub id: u64,
    pub kind: EntityKind,
}

} // verus!
