//! The `Recipes` table: a recipe belongs to exactly one craft type.

use vstd::prelude::*;

use crate::keyed::Keyed;

verus! {

/// A row of `Recipes(Id PK, CraftTypeId FK -> CraftTypes.Id)`.
#[derive(Clone, Copy, Debug, PartialEq, Eq)]
pub struct Model {
    pub id: i32,
    pub craft_type_id: i32,
}

impl Keyed for Model {
    open spec fn key_spec(&self) -> i32 {
        self.id
    }

    fn key(&self) -> i32 {
        self.id
    }
}

} // verus!
