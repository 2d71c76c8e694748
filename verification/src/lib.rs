//! An in-memory relational model of crafting recipes.
//!
//! Four entities make up the model: named crafting categories
//! ([`craft_types`]), craftable items ([`items`]), recipes that belong to a
//! category ([`recipes`]), and ingredient rows that tie an item and a
//! quantity to a recipe ([`item_with_amount`]).
//!
//! The [`store::Store`] persists rows of all four entities and enforces the
//! declared foreign-key rules at the storage boundary: an ingredient row must
//! reference an existing item, and deleting that item cascades to the rows
//! that reference it; a recipe delete, by contrast, leaves its ingredient
//! rows behind with a dangling recipe reference, exactly as the schema
//! declares it.

pub mod craft_types;
pub mod error;
pub mod item_with_amount;
pub mod items;
pub mod keyed;
pub mod recipes;
pub mod schema;
pub mod store;
