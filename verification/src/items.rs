//! The `Items` table: craftable or consumable things.

use vstd::prelude::*;

use crate::keyed::Keyed;

verus! {

/// A row of `Items(Id PK, Name)`.
#[derive(Clone, Debug, PartialEq, Eq)]
pub struct Model {
    pub id: i32,
    pub name: String,
}

impl Model {
    /// An exact copy of the row.
    pub fn duplicate(&self) -> (r: Model)
        ensures
            r == *self,
    {
        Model { id: self.id, name: self.name.clone() }
    }
}

impl Keyed for Model {
    open spec fn key_spec(&self) -> i32 {
        self.id
    }

    fn key(&self) -> i32 {
        self.id
    }
}

} // verus!
