//! Why a board refuses to take a relation.

use vstd::prelude::*;

verus! {

/// The recoverable failures of declaring a relation.
#[derive(PartialEq, Eq, Structural, Clone, Copy, Debug)]
pub enum Error {
    /// A relation of the same kind is already stored under the identifier.
    AlreadyExists,
    /// The relation names an entity or a resource that the catalog lacks.
    NotFound,
}

} // verus!
