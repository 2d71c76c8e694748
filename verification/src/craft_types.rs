//! The `CraftTypes` table: named crafting categories.

use vstd::prelude::*;

use crate::keyed::Keyed;
use crate::schema::{ReferentialAction, RelationDef};

verus! {

/// A row of `CraftTypes(Id PK, Name)`.
#[derive(Clone, Debug, PartialEq, Eq)]
pub struct Model {
    pub id: i32,
    pub name: String,
}

impl Model {
    /// An exact copy of the row.
    pub fn duplicate(&self) -> (r: Model)
        ensures
            r == *self,
    {
        Model { id: self.id, name: self.name.clone() }
    }
}

impl Keyed for Model {
    open spec fn key_spec(&self) -> i32 {
        self.id
    }

    fn key(&self) -> i32 {
        self.id
    }
}

/// The outgoing edges of the `CraftTypes` table.
#[derive(Clone, Copy, Debug)]
pub enum Relation {
    /// `CraftTypes` has many `Recipes`, through `Recipes.CraftTypeId`.
    Recipes,
}

impl Relation {
    /// The declared referential behaviour of the edge. A craft type that a
    /// recipe still references may not be updated or deleted away.
    pub fn def(&self) -> (d: RelationDef)
        ensures
            d.on_update == ReferentialAction::Restrict,
            d.on_delete == ReferentialAction::Restrict,
    {
        RelationDef { on_update: ReferentialAction::Restrict, on_delete: ReferentialAction::Restrict }
    }
}

} // verus!
