//! The referential rules of the schema, as explicit data.
//!
//! Each foreign-key edge declares what the store does to referencing rows
//! when the referenced row is updated or deleted. The `Relation` enums of the
//! entity modules hand these definitions out, and the contracts of
//! [`crate::store::Store`]'s update and delete operations follow them.

use vstd::prelude::*;

verus! {

/// What happens to rows referencing a row that is updated or deleted.
#[derive(Clone, Copy, Debug, PartialEq, Eq)]
pub enum ReferentialAction {
    /// Referencing rows are removed together with the referenced row.
    Cascade,
    /// Nothing happens to referencing rows; their reference is left
    /// dangling.
    NoAction,
    /// The operation is refused while referencing rows exist.
    Restrict,
}

/// The declared behaviour of one foreign-key edge.
#[derive(Clone, Copy, Debug, PartialEq, Eq)]
pub struct RelationDef {
    pub on_update: ReferentialAction,
    pub on_delete: ReferentialAction,
}

} // verus!
