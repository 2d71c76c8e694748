//! The `ItemWithAmount` table: the join entity between items and recipes.
//!
//! A row ties an ingredient item and a quantity to an owning recipe. The
//! recipe reference is optional: a row may exist unattached to any recipe.

use vstd::prelude::*;

use crate::keyed::Keyed;
use crate::schema::{ReferentialAction, RelationDef};

verus! {

/// A row of `ItemWithAmount(Id PK, IngredientId FK -> Items.Id, Amount,
/// RecipeId FK -> Recipes.Id, nullable)`.
#[derive(Clone, Copy, Debug, PartialEq, Eq)]
pub struct Model {
    pub id: i32,
    pub ingredient_id: i32,
    pub amount: i32,
    pub recipe_id: Option<i32>,
}

impl Keyed for Model {
    open spec fn key_spec(&self) -> i32 {
        self.id
    }

    fn key(&self) -> i32 {
        self.id
    }
}

/// The outgoing edges of the `ItemWithAmount` table.
#[derive(Clone, Copy, Debug)]
pub enum Relation {
    /// `ItemWithAmount.RecipeId` references `Recipes.Id`; deleting or
    /// updating the recipe takes no action on its ingredient rows.
    Recipes,
    /// `ItemWithAmount.IngredientId` references `Items.Id`; deleting the
    /// item cascades to the rows that reference it.
    Items,
}

impl Relation {
    /// The declared referential behaviour of the edge.
    pub fn def(&self) -> (d: RelationDef)
        ensures
            *self is Recipes ==> d == (RelationDef {
                on_update: ReferentialAction::NoAction,
                on_delete: ReferentialAction::NoAction,
            }),
            *self is Items ==> d == (RelationDef {
                on_update: ReferentialAction::NoAction,
                on_delete: ReferentialAction::Cascade,
            }),
    {
        match self {
            Relation::Recipes => RelationDef {
                on_update: ReferentialAction::NoAction,
                on_delete: ReferentialAction::NoAction,
            },
            Relation::Items => RelationDef {
                on_update: ReferentialAction::NoAction,
                on_delete: ReferentialAction::Cascade,
            },
        }
    }
}

} // verus!
