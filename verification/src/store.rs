//! The entity store: four tables and the referential rules between them.

use vstd::prelude::*;

use crate::craft_types;
use crate::error::Error;
use crate::item_with_amount;
use crate::items;
use crate::keyed::{
    contains_key, has_key, index_of_key, lemma_has_key_push, lemma_has_key_remove,
    lemma_has_key_update, lemma_unique_push, lemma_unique_remove, lemma_unique_update,
    row_with_key, unique_keys, Keyed,
};
use crate::recipes;

verus! {

/// The rows of `ItemWithAmount` whose `IngredientId` is `id`.
pub open spec fn amounts_referencing(s: Seq<item_with_amount::Model>, id: i32) -> Seq<
    item_with_amount::Model,
> {
    s.filter(|x: item_with_amount::Model| x.ingredient_id == id)
}

/// The rows of `ItemWithAmount` whose `IngredientId` is not `id`.
pub open spec fn without_ingredient(s: Seq<item_with_amount::Model>, id: i32) -> Seq<
    item_with_amount::Model,
> {
    s.filter(|x: item_with_amount::Model| x.ingredient_id != id)
}

/// The rows of `ItemWithAmount` attached to the recipe `rid`.
pub open spec fn for_recipe(s: Seq<item_with_amount::Model>, rid: i32) -> Seq<
    item_with_amount::Model,
> {
    s.filter(|x: item_with_amount::Model| x.recipe_id == Some(rid))
}

/// The rows of `Recipes` that belong to the craft type `cid`.
pub open spec fn for_craft_type(s: Seq<recipes::Model>, cid: i32) -> Seq<recipes::Model> {
    s.filter(|x: recipes::Model| x.craft_type_id == cid)
}

/// Some row of `Recipes` references the craft type `cid`.
pub open spec fn some_recipe_references(s: Seq<recipes::Model>, cid: i32) -> bool {
    exists|i: int| 0 <= i < s.len() && (#[trigger] s[i].craft_type_id) == cid
}

/// Some row of `ItemWithAmount` references the item `id` as ingredient.
pub open spec fn some_amount_references(s: Seq<item_with_amount::Model>, id: i32) -> bool {
    exists|i: int| 0 <= i < s.len() && (#[trigger] s[i].ingredient_id) == id
}

/// A cascade keeps the keys of the surviving ingredient rows unique.
proof fn lemma_without_ingredient_unique(s: Seq<item_with_amount::Model>, id: i32)
    requires
        unique_keys(s),
    ensures
        unique_keys(without_ingredient(s, id)),
    decreases s.len(),
{
    broadcast use Seq::group_seq_extra;
    broadcast use vstd::seq_lib::group_filter_ensures;

    reveal(Seq::filter);
    if s.len() > 0 {
        let rest = s.drop_last();
        crate::keyed::lemma_unique_drop_last(s);
        lemma_without_ingredient_unique(rest, id);
        let sub = without_ingredient(rest, id);
        let t = without_ingredient(s, id);
        if s.last().ingredient_id != id {
            assert(t == sub.push(s.last()));
            assert forall|i: int, j: int|
                #![trigger t[i].key_spec(), t[j].key_spec()]
                0 <= i < t.len() && 0 <= j < t.len() && i != j implies t[i].key_spec()
                != t[j].key_spec() by {
                if i < sub.len() && j < sub.len() {
                    assert(t[i] == sub[i]);
                    assert(t[j] == sub[j]);
                } else {
                    let k = if i < sub.len() { i } else { j };
                    assert(t[k] == sub[k]);
                    assert(sub.contains(sub[k]));
                    let w = choose|w: int| 0 <= w < rest.len() && rest[w] == sub[k];
                    assert(s[w] == sub[k]);
                    assert(s[w].key_spec() != s[s.len() - 1].key_spec());
                }
            }
        } else {
            assert(t == sub);
        }
    }
}

/// No surviving ingredient row references the deleted item: filtering the
/// survivors of a cascade for the deleted item's id yields the empty
/// sequence.
pub proof fn lemma_cascade_removes_references(s: Seq<item_with_amount::Model>, id: i32)
    ensures
        amounts_referencing(without_ingredient(s, id), id) == Seq::<item_with_amount::Model>::empty(),
{
    broadcast use Seq::group_seq_extra;
    broadcast use vstd::seq_lib::group_filter_ensures;

    let survivors = without_ingredient(s, id);
    let t = amounts_referencing(survivors, id);
    if t.len() > 0 {
        assert(t[0].ingredient_id == id);
        assert(t.contains(t[0]));
        assert(survivors.contains(t[0]));
        let w = choose|w: int| 0 <= w < survivors.len() && survivors[w] == t[0];
        assert(survivors[w].ingredient_id != id);
    }
    assert(t =~= Seq::<item_with_amount::Model>::empty());
}

/// A cascade removes exactly the referencing rows: the survivors and the
/// rows that referenced the deleted item partition the table, so deleting an
/// item referenced by N ingredient rows removes all N of them in the one
/// step.
pub proof fn lemma_cascade_removes_count(s: Seq<item_with_amount::Model>, id: i32)
    ensures
        without_ingredient(s, id).len() + amounts_referencing(s, id).len() == s.len(),
    decreases s.len(),
{
    reveal(Seq::filter);
    if s.len() > 0 {
        lemma_cascade_removes_count(s.drop_last(), id);
    }
}

/// An ingredient row without a recipe is invisible to recipe queries:
/// adding it to the table changes the rows attached to `rid` for no
/// concrete recipe id `rid`.
pub proof fn lemma_unattached_row_invisible(
    s: Seq<item_with_amount::Model>,
    m: item_with_amount::Model,
    rid: i32,
)
    requires
        m.recipe_id is None,
    ensures
        for_recipe(s.push(m), rid) == for_recipe(s, rid),
{
    broadcast use Seq::group_seq_extra;

    assert(for_recipe(s.push(m), rid) == for_recipe(s, rid));
}

/// Whether some recipe row of `v` belongs to the craft type `cid`.
fn references_craft_type(v: &Vec<recipes::Model>, cid: i32) -> (r: bool)
    ensures
        r == some_recipe_references(v@, cid),
{
    let mut i: usize = 0;
    while i < v.len()
        invariant
            i <= v.len(),
            forall|j: int| 0 <= j < i ==> (#[trigger] v@[j].craft_type_id) != cid,
        decreases v.len() - i,
    {
        if v[i].craft_type_id == cid {
            return true;
        }
        i = i + 1;
    }
    false
}

/// Whether some ingredient row of `v` references the item `id`.
fn references_item(v: &Vec<item_with_amount::Model>, id: i32) -> (r: bool)
    ensures
        r == some_amount_references(v@, id),
{
    let mut i: usize = 0;
    while i < v.len()
        invariant
            i <= v.len(),
            forall|j: int| 0 <= j < i ==> (#[trigger] v@[j].ingredient_id) != id,
        decreases v.len() - i,
    {
        if v[i].ingredient_id == id {
            return true;
        }
        i = i + 1;
    }
    false
}

/// An in-memory store for the four entity tables.
///
/// Rows keep insertion order; every operation states its effect over the
/// views of the four tables.
pub struct Store {
    pub craft_types: Vec<craft_types::Model>,
    pub items: Vec<items::Model>,
    pub recipes: Vec<recipes::Model>,
    pub items_with_amount: Vec<item_with_amount::Model>,
}

impl Store {
    /// The store's well-formedness: primary keys are unique within each
    /// table, every recipe references an existing craft type, and every
    /// ingredient row references an existing item. A row's `RecipeId` is
    /// deliberately not constrained: a recipe delete leaves it dangling.
    pub open spec fn wf(self) -> bool {
        &&& unique_keys(self.craft_types@)
        &&& unique_keys(self.items@)
        &&& unique_keys(self.recipes@)
        &&& unique_keys(self.items_with_amount@)
        &&& forall|i: int|
            0 <= i < self.recipes@.len() ==> has_key(
                self.craft_types@,
                #[trigger] self.recipes@[i].craft_type_id,
            )
        &&& forall|i: int|
            0 <= i < self.items_with_amount@.len() ==> has_key(
                self.items@,
                #[trigger] self.items_with_amount@[i].ingredient_id,
            )
    }

    /// The conditions under which replacing the craft type of key `id` by
    /// the row `m` respects the schema: the key is kept, or the new key is
    /// free and no recipe still references the old one.
    pub open spec fn craft_type_update_ok(self, id: i32, m: craft_types::Model) -> bool {
        m.id == id || (!has_key(self.craft_types@, m.id) && !some_recipe_references(
            self.recipes@,
            id,
        ))
    }

    /// The conditions under which replacing the item of key `id` by the row
    /// `m` respects the schema: the key is kept, or the new key is free and
    /// no ingredient row still references the old one.
    pub open spec fn item_update_ok(self, id: i32, m: items::Model) -> bool {
        m.id == id || (!has_key(self.items@, m.id) && !some_amount_references(
            self.items_with_amount@,
            id,
        ))
    }

    /// An empty store.
    pub fn new() -> (s: Store)
        ensures
            s.wf(),
            s.craft_types@ =~= Seq::<craft_types::Model>::empty(),
            s.items@ =~= Seq::<items::Model>::empty(),
            s.recipes@ =~= Seq::<recipes::Model>::empty(),
            s.items_with_amount@ =~= Seq::<item_with_amount::Model>::empty(),
    {
        Store {
            craft_types: Vec::new(),
            items: Vec::new(),
            recipes: Vec::new(),
            items_with_amount: Vec::new(),
        }
    }

    /// Inserts a craft type. Fails with `ConstraintViolation` when the id is
    /// already taken; otherwise the row is appended and returned.
    pub fn create_craft_type(&mut self, m: craft_types::Model) -> (r: Result<
        craft_types::Model,
        Error,
    >)
        requires
            old(self).wf(),
        ensures
            final(self).wf(),
            final(self).items@ == old(self).items@,
            final(self).recipes@ == old(self).recipes@,
            final(self).items_with_amount@ == old(self).items_with_amount@,
            has_key(old(self).craft_types@, m.id) ==> r == Err::<craft_types::Model, Error>(
                Error::ConstraintViolation,
            ) && final(self).craft_types@ == old(self).craft_types@,
            !has_key(old(self).craft_types@, m.id) ==> r == Ok::<craft_types::Model, Error>(m)
                && final(self).craft_types@ == old(self).craft_types@.push(m),
    {
        if contains_key(&self.craft_types, m.id) {
            return Err(Error::ConstraintViolation);
        }
        let persisted = m.duplicate();
        proof {
            lemma_unique_push(self.craft_types@, m);
            assert forall|i: int| 0 <= i < self.recipes@.len() implies has_key(
                self.craft_types@.push(m),
                #[trigger] self.recipes@[i].craft_type_id,
            ) by {
                lemma_has_key_push(self.craft_types@, m, self.recipes@[i].craft_type_id);
            }
        }
        self.craft_types.push(m);
        Ok(persisted)
    }

    /// Returns the craft type of key `id`, or `NotFound`.
    pub fn get_craft_type(&self, id: i32) -> (r: Result<craft_types::Model, Error>)
        ensures
            has_key(self.craft_types@, id) ==> (r matches Ok(p) && row_with_key(
                self.craft_types@,
                id,
                p,
            )),
            !has_key(self.craft_types@, id) ==> r == Err::<craft_types::Model, Error>(
                Error::NotFound,
            ),
    {
        match index_of_key(&self.craft_types, id) {
            Some(i) => Ok(self.craft_types[i].duplicate()),
            None => Err(Error::NotFound),
        }
    }

    /// Returns every craft type row, in insertion order.
    pub fn list_craft_types(&self) -> (r: Vec<craft_types::Model>)
        ensures
            r@ == self.craft_types@,
    {
        let mut out: Vec<craft_types::Model> = Vec::new();
        let mut i: usize = 0;
        while i < self.craft_types.len()
            invariant
                i <= self.craft_types.len(),
                out@ == self.craft_types@.take(i as int),
            decreases self.craft_types.len() - i,
        {
            out.push(self.craft_types[i].duplicate());
            proof {
                assert(self.craft_types@.take(i + 1) =~= self.craft_types@.take(i as int).push(
                    self.craft_types@[i as int],
                ));
            }
            i = i + 1;
        }
        proof {
            assert(self.craft_types@.take(self.craft_types@.len() as int) =~= self.craft_types@);
        }
        out
    }

    /// Replaces the craft type row of key `id` by `m`. Fails with `NotFound`
    /// when no row carries `id`, and with `ConstraintViolation` when the
    /// replacement would break key uniqueness or strand a referencing
    /// recipe.
    pub fn update_craft_type(&mut self, id: i32, m: craft_types::Model) -> (r: Result<
        craft_types::Model,
        Error,
    >)
        requires
            old(self).wf(),
        ensures
            final(self).wf(),
            final(self).items@ == old(self).items@,
            final(self).recipes@ == old(self).recipes@,
            final(self).items_with_amount@ == old(self).items_with_amount@,
            !has_key(old(self).craft_types@, id) ==> r == Err::<craft_types::Model, Error>(
                Error::NotFound,
            ) && final(self).craft_types@ == old(self).craft_types@,
            has_key(old(self).craft_types@, id) && !old(self).craft_type_update_ok(id, m) ==> r
                == Err::<craft_types::Model, Error>(Error::ConstraintViolation)
                && final(self).craft_types@ == old(self).craft_types@,
            has_key(old(self).craft_types@, id) && old(self).craft_type_update_ok(id, m) ==> r
                == Ok::<craft_types::Model, Error>(m) && exists|i: int|
                0 <= i < old(self).craft_types@.len() && (#[trigger] old(
                    self,
                ).craft_types@[i]).id == id && final(self).craft_types@ == old(self).craft_types@.update(
                    i,
                    m,
                ),
    {
        let i = match index_of_key(&self.craft_types, id) {
            Some(i) => i,
            None => {
                return Err(Error::NotFound);
            },
        };
        if m.id != id {
            if contains_key(&self.craft_types, m.id) {
                return Err(Error::ConstraintViolation);
            }
            if references_craft_type(&self.recipes, id) {
                return Err(Error::ConstraintViolation);
            }
        }
        let persisted = m.duplicate();
        proof {
            lemma_unique_update(self.craft_types@, i as int, m);
            assert forall|k: int| 0 <= k < self.recipes@.len() implies has_key(
                self.craft_types@.update(i as int, m),
                #[trigger] self.recipes@[k].craft_type_id,
            ) by {
                lemma_has_key_update(
                    self.craft_types@,
                    i as int,
                    m,
                    self.recipes@[k].craft_type_id,
                );
            }
        }
        self.craft_types[i] = m;
        Ok(persisted)
    }

    /// Deletes the craft type row of key `id`. Fails with `NotFound` when no
    /// row carries `id`, and with `ConstraintViolation` while a recipe still
    /// references it.
    pub fn delete_craft_type(&mut self, id: i32) -> (r: Result<(), Error>)
        requires
            old(self).wf(),
        ensures
            final(self).wf(),
            final(self).items@ == old(self).items@,
            final(self).recipes@ == old(self).recipes@,
            final(self).items_with_amount@ == old(self).items_with_amount@,
            !has_key(old(self).craft_types@, id) ==> r == Err::<(), Error>(Error::NotFound)
                && final(self).craft_types@ == old(self).craft_types@,
            has_key(old(self).craft_types@, id) && some_recipe_references(old(self).recipes@, id)
                ==> r == Err::<(), Error>(Error::ConstraintViolation) && final(self).craft_types@
                == old(self).craft_types@,
            has_key(old(self).craft_types@, id) && !some_recipe_references(old(self).recipes@, id)
                ==> r == Ok::<(), Error>(()) && exists|i: int|
                0 <= i < old(self).craft_types@.len() && (#[trigger] old(
                    self,
                ).craft_types@[i]).id == id && final(self).craft_types@ == old(self).craft_types@.remove(
                    i,
                ),
    {
        let i = match index_of_key(&self.craft_types, id) {
            Some(i) => i,
            None => {
                return Err(Error::NotFound);
            },
        };
        if references_craft_type(&self.recipes, id) {
            return Err(Error::ConstraintViolation);
        }
        proof {
            lemma_unique_remove(self.craft_types@, i as int);
            assert forall|k: int| 0 <= k < self.recipes@.len() implies has_key(
                self.craft_types@.remove(i as int),
                #[trigger] self.recipes@[k].craft_type_id,
            ) by {
                lemma_has_key_remove(
                    self.craft_types@,
                    i as int,
                    self.recipes@[k].craft_type_id,
                );
            }
        }
        self.craft_types.remove(i);
        Ok(())
    }

    /// Inserts an item. Fails with `ConstraintViolation` when the id is
    /// already taken; otherwise the row is appended and returned.
    pub fn create_item(&mut self, m: items::Model) -> (r: Result<items::Model, Error>)
        requires
            old(self).wf(),
        ensures
            final(self).wf(),
            final(self).craft_types@ == old(self).craft_types@,
            final(self).recipes@ == old(self).recipes@,
            final(self).items_with_amount@ == old(self).items_with_amount@,
            has_key(old(self).items@, m.id) ==> r == Err::<items::Model, Error>(
                Error::ConstraintViolation,
            ) && final(self).items@ == old(self).items@,
            !has_key(old(self).items@, m.id) ==> r == Ok::<items::Model, Error>(m) && final(self).items@ == old(self).items@.push(m),
    {
        if contains_key(&self.items, m.id) {
            return Err(Error::ConstraintViolation);
        }
        let persisted = m.duplicate();
        proof {
            lemma_unique_push(self.items@, m);
            assert forall|i: int| 0 <= i < self.items_with_amount@.len() implies has_key(
                self.items@.push(m),
                #[trigger] self.items_with_amount@[i].ingredient_id,
            ) by {
                lemma_has_key_push(self.items@, m, self.items_with_amount@[i].ingredient_id);
            }
        }
        self.items.push(m);
        Ok(persisted)
    }

    /// Returns the item of key `id`, or `NotFound`.
    pub fn get_item(&self, id: i32) -> (r: Result<items::Model, Error>)
        ensures
            has_key(self.items@, id) ==> (r matches Ok(p) && row_with_key(self.items@, id, p)),
            !has_key(self.items@, id) ==> r == Err::<items::Model, Error>(Error::NotFound),
    {
        match index_of_key(&self.items, id) {
            Some(i) => Ok(self.items[i].duplicate()),
            None => Err(Error::NotFound),
        }
    }

    /// Returns every item row, in insertion order.
    pub fn list_items(&self) -> (r: Vec<items::Model>)
        ensures
            r@ == self.items@,
    {
        let mut out: Vec<items::Model> = Vec::new();
        let mut i: usize = 0;
        while i < self.items.len()
            invariant
                i <= self.items.len(),
                out@ == self.items@.take(i as int),
            decreases self.items.len() - i,
        {
            out.push(self.items[i].duplicate());
            proof {
                assert(self.items@.take(i + 1) =~= self.items@.take(i as int).push(
                    self.items@[i as int],
                ));
            }
            i = i + 1;
        }
        proof {
            assert(self.items@.take(self.items@.len() as int) =~= self.items@);
        }
        out
    }

    /// Replaces the item row of key `id` by `m`. Fails with `NotFound` when
    /// no row carries `id`, and with `ConstraintViolation` when the
    /// replacement would break key uniqueness or strand a referencing
    /// ingredient row.
    pub fn update_item(&mut self, id: i32, m: items::Model) -> (r: Result<items::Model, Error>)
        requires
            old(self).wf(),
        ensures
            final(self).wf(),
            final(self).craft_types@ == old(self).craft_types@,
            final(self).recipes@ == old(self).recipes@,
            final(self).items_with_amount@ == old(self).items_with_amount@,
            !has_key(old(self).items@, id) ==> r == Err::<items::Model, Error>(Error::NotFound)
                && final(self).items@ == old(self).items@,
            has_key(old(self).items@, id) && !old(self).item_update_ok(id, m) ==> r == Err::<
                items::Model,
                Error,
            >(Error::ConstraintViolation) && final(self).items@ == old(self).items@,
            has_key(old(self).items@, id) && old(self).item_update_ok(id, m) ==> r == Ok::<
                items::Model,
                Error,
            >(m) && exists|i: int|
                0 <= i < old(self).items@.len() && (#[trigger] old(self).items@[i]).id == id
                    && final(self).items@ == old(self).items@.update(i, m),
    {
        let i = match index_of_key(&self.items, id) {
            Some(i) => i,
            None => {
                return Err(Error::NotFound);
            },
        };
        if m.id != id {
            if contains_key(&self.items, m.id) {
                return Err(Error::ConstraintViolation);
            }
            if references_item(&self.items_with_amount, id) {
                return Err(Error::ConstraintViolation);
            }
        }
        let persisted = m.duplicate();
        proof {
            lemma_unique_update(self.items@, i as int, m);
            assert forall|k: int| 0 <= k < self.items_with_amount@.len() implies has_key(
                self.items@.update(i as int, m),
                #[trigger] self.items_with_amount@[k].ingredient_id,
            ) by {
                lemma_has_key_update(
                    self.items@,
                    i as int,
                    m,
                    self.items_with_amount@[k].ingredient_id,
                );
            }
        }
        self.items[i] = m;
        Ok(persisted)
    }

    /// Deletes the item row of key `id`, cascading to every ingredient row
    /// that references it: the item and all such rows vanish in the one
    /// call, and afterwards no ingredient row references the item. Fails
    /// with `NotFound` when no row carries `id`.
    pub fn delete_item(&mut self, id: i32) -> (r: Result<(), Error>)
        requires
            old(self).wf(),
        ensures
            final(self).wf(),
            final(self).craft_types@ == old(self).craft_types@,
            final(self).recipes@ == old(self).recipes@,
            !has_key(old(self).items@, id) ==> r == Err::<(), Error>(Error::NotFound) && final(self).items@ == old(self).items@ && final(self).items_with_amount@ == old(
                self,
            ).items_with_amount@,
            has_key(old(self).items@, id) ==> r == Ok::<(), Error>(()) && final(self).items_with_amount@ == without_ingredient(old(self).items_with_amount@, id) && exists|
                i: int,
            |
                0 <= i < old(self).items@.len() && (#[trigger] old(self).items@[i]).id == id
                    && final(self).items@ == old(self).items@.remove(i),
            has_key(old(self).items@, id) ==> amounts_referencing(
                final(self).items_with_amount@,
                id,
            ) == Seq::<item_with_amount::Model>::empty(),
    {
        let i = match index_of_key(&self.items, id) {
            Some(i) => i,
            None => {
                return Err(Error::NotFound);
            },
        };
        let ghost old_amounts = self.items_with_amount@;
        let mut kept: Vec<item_with_amount::Model> = Vec::new();
        let mut j: usize = 0;
        while j < self.items_with_amount.len()
            invariant
                j <= self.items_with_amount@.len(),
                self.items_with_amount@ == old_amounts,
                kept@ == without_ingredient(old_amounts.take(j as int), id),
            decreases self.items_with_amount@.len() - j,
        {
            let row = self.items_with_amount[j];
            proof {
                broadcast use Seq::group_seq_extra;

                assert(old_amounts.take(j + 1) =~= old_amounts.take(j as int).push(row));
                assert(without_ingredient(old_amounts.take(j + 1), id) == without_ingredient(
                    old_amounts.take(j as int).push(row),
                    id,
                ));
            }
            if row.ingredient_id != id {
                kept.push(row);
            }
            j = j + 1;
        }
        proof {
            assert(old_amounts.take(old_amounts.len() as int) =~= old_amounts);
        }
        self.items_with_amount = kept;
        self.items.remove(i);
        proof {
            broadcast use Seq::group_seq_extra;
            broadcast use vstd::seq_lib::group_filter_ensures;

            lemma_unique_remove(old(self).items@, i as int);
            lemma_without_ingredient_unique(old_amounts, id);
            lemma_cascade_removes_references(old_amounts, id);
            let survivors = without_ingredient(old_amounts, id);
            assert forall|k: int| 0 <= k < survivors.len() implies has_key(
                old(self).items@.remove(i as int),
                (#[trigger] survivors[k]).ingredient_id,
            ) by {
                assert(survivors[k].ingredient_id != id);
                assert(survivors.contains(survivors[k]));
                assert(old_amounts.contains(survivors[k]));
                let w = choose|w: int| 0 <= w < old_amounts.len() && old_amounts[w] == survivors[k];
                assert(has_key(old(self).items@, old_amounts[w].ingredient_id));
                lemma_has_key_remove(old(self).items@, i as int, survivors[k].ingredient_id);
            }
        }
        Ok(())
    }

    /// The conditions under which inserting the recipe row `m` respects the
    /// schema: its key is free and its craft type exists.
    pub open spec fn recipe_create_ok(self, m: recipes::Model) -> bool {
        !has_key(self.recipes@, m.id) && has_key(self.craft_types@, m.craft_type_id)
    }

    /// The conditions under which replacing the recipe of key `id` by the
    /// row `m` respects the schema: the new craft type exists, and the key
    /// is kept or the new key is free. Ingredient rows never restrict a
    /// recipe: their edge declares no action.
    pub open spec fn recipe_update_ok(self, id: i32, m: recipes::Model) -> bool {
        has_key(self.craft_types@, m.craft_type_id) && (m.id == id || !has_key(
            self.recipes@,
            m.id,
        ))
    }

    /// Inserts a recipe. Fails with `ConstraintViolation` when the id is
    /// already taken or the referenced craft type does not exist.
    pub fn create_recipe(&mut self, m: recipes::Model) -> (r: Result<recipes::Model, Error>)
        requires
            old(self).wf(),
        ensures
            final(self).wf(),
            final(self).craft_types@ == old(self).craft_types@,
            final(self).items@ == old(self).items@,
            final(self).items_with_amount@ == old(self).items_with_amount@,
            !old(self).recipe_create_ok(m) ==> r == Err::<recipes::Model, Error>(
                Error::ConstraintViolation,
            ) && final(self).recipes@ == old(self).recipes@,
            old(self).recipe_create_ok(m) ==> r == Ok::<recipes::Model, Error>(m) && final(self).recipes@ == old(self).recipes@.push(m),
    {
        if contains_key(&self.recipes, m.id) {
            return Err(Error::ConstraintViolation);
        }
        if !contains_key(&self.craft_types, m.craft_type_id) {
            return Err(Error::ConstraintViolation);
        }
        proof {
            lemma_unique_push(self.recipes@, m);
        }
        self.recipes.push(m);
        Ok(m)
    }

    /// Returns the recipe of key `id`, or `NotFound`.
    pub fn get_recipe(&self, id: i32) -> (r: Result<recipes::Model, Error>)
        ensures
            has_key(self.recipes@, id) ==> (r matches Ok(p) && row_with_key(self.recipes@, id, p)),
            !has_key(self.recipes@, id) ==> r == Err::<recipes::Model, Error>(Error::NotFound),
    {
        match index_of_key(&self.recipes, id) {
            Some(i) => Ok(self.recipes[i]),
            None => Err(Error::NotFound),
        }
    }

    /// Returns every recipe row, in insertion order.
    pub fn list_recipes(&self) -> (r: Vec<recipes::Model>)
        ensures
            r@ == self.recipes@,
    {
        let mut out: Vec<recipes::Model> = Vec::new();
        let mut i: usize = 0;
        while i < self.recipes.len()
            invariant
                i <= self.recipes.len(),
                out@ == self.recipes@.take(i as int),
            decreases self.recipes.len() - i,
        {
            out.push(self.recipes[i]);
            proof {
                assert(self.recipes@.take(i + 1) =~= self.recipes@.take(i as int).push(
                    self.recipes@[i as int],
                ));
            }
            i = i + 1;
        }
        proof {
            assert(self.recipes@.take(self.recipes@.len() as int) =~= self.recipes@);
        }
        out
    }

    /// Replaces the recipe row of key `id` by `m`. Fails with `NotFound`
    /// when no row carries `id`, and with `ConstraintViolation` when the
    /// craft type reference or key uniqueness would break. Ingredient rows
    /// attached to the old key are left as they are.
    pub fn update_recipe(&mut self, id: i32, m: recipes::Model) -> (r: Result<
        recipes::Model,
        Error,
    >)
        requires
            old(self).wf(),
        ensures
            final(self).wf(),
            final(self).craft_types@ == old(self).craft_types@,
            final(self).items@ == old(self).items@,
            final(self).items_with_amount@ == old(self).items_with_amount@,
            !has_key(old(self).recipes@, id) ==> r == Err::<recipes::Model, Error>(Error::NotFound)
                && final(self).recipes@ == old(self).recipes@,
            has_key(old(self).recipes@, id) && !old(self).recipe_update_ok(id, m) ==> r == Err::<
                recipes::Model,
                Error,
            >(Error::ConstraintViolation) && final(self).recipes@ == old(self).recipes@,
            has_key(old(self).recipes@, id) && old(self).recipe_update_ok(id, m) ==> r == Ok::<
                recipes::Model,
                Error,
            >(m) && exists|i: int|
                0 <= i < old(self).recipes@.len() && (#[trigger] old(self).recipes@[i]).id == id
                    && final(self).recipes@ == old(self).recipes@.update(i, m),
    {
        let i = match index_of_key(&self.recipes, id) {
            Some(i) => i,
            None => {
                return Err(Error::NotFound);
            },
        };
        if !contains_key(&self.craft_types, m.craft_type_id) {
            return Err(Error::ConstraintViolation);
        }
        if m.id != id {
            if contains_key(&self.recipes, m.id) {
                return Err(Error::ConstraintViolation);
            }
        }
        proof {
            lemma_unique_update(self.recipes@, i as int, m);
            assert forall|k: int| 0 <= k < self.recipes@.update(i as int, m).len() implies has_key(
                self.craft_types@,
                (#[trigger] self.recipes@.update(i as int, m)[k]).craft_type_id,
            ) by {
                if k != i {
                    assert(self.recipes@.update(i as int, m)[k] == self.recipes@[k]);
                }
            }
        }
        self.recipes[i] = m;
        Ok(m)
    }

    /// Deletes the recipe row of key `id`. Fails with `NotFound` when no
    /// row carries `id`. The delete does not cascade: ingredient rows
    /// attached to the recipe survive it untouched, their `RecipeId` left
    /// dangling, and a later query for that id still returns them.
    pub fn delete_recipe(&mut self, id: i32) -> (r: Result<(), Error>)
        requires
            old(self).wf(),
        ensures
            final(self).wf(),
            final(self).craft_types@ == old(self).craft_types@,
            final(self).items@ == old(self).items@,
            final(self).items_with_amount@ == old(self).items_with_amount@,
            for_recipe(final(self).items_with_amount@, id) == for_recipe(
                old(self).items_with_amount@,
                id,
            ),
            !has_key(old(self).recipes@, id) ==> r == Err::<(), Error>(Error::NotFound) && final(self).recipes@ == old(self).recipes@,
            has_key(old(self).recipes@, id) ==> r == Ok::<(), Error>(()) && exists|i: int|
                0 <= i < old(self).recipes@.len() && (#[trigger] old(self).recipes@[i]).id == id
                    && final(self).recipes@ == old(self).recipes@.remove(i),
    {
        let i = match index_of_key(&self.recipes, id) {
            Some(i) => i,
            None => {
                return Err(Error::NotFound);
            },
        };
        proof {
            lemma_unique_remove(self.recipes@, i as int);
            assert forall|k: int| 0 <= k < self.recipes@.remove(i as int).len() implies has_key(
                self.craft_types@,
                (#[trigger] self.recipes@.remove(i as int)[k]).craft_type_id,
            ) by {
                if k < i {
                    assert(self.recipes@.remove(i as int)[k] == self.recipes@[k]);
                } else {
                    assert(self.recipes@.remove(i as int)[k] == self.recipes@[k + 1]);
                }
            }
        }
        self.recipes.remove(i);
        Ok(())
    }

    /// The conditions under which inserting the ingredient row `m` respects
    /// the schema: its key is free, its ingredient item exists, and its
    /// recipe, when given, exists. A row without a recipe is welcome.
    pub open spec fn amount_create_ok(self, m: item_with_amount::Model) -> bool {
        &&& !has_key(self.items_with_amount@, m.id)
        &&& has_key(self.items@, m.ingredient_id)
        &&& (m.recipe_id matches Some(rid) ==> has_key(self.recipes@, rid))
    }

    /// The conditions under which replacing the ingredient row of key `id`
    /// by `m` respects the schema: `m`'s references are valid as on insert,
    /// and the key is kept or the new key is free.
    pub open spec fn amount_update_ok(self, id: i32, m: item_with_amount::Model) -> bool {
        &&& has_key(self.items@, m.ingredient_id)
        &&& (m.recipe_id matches Some(rid) ==> has_key(self.recipes@, rid))
        &&& (m.id == id || !has_key(self.items_with_amount@, m.id))
    }

    /// Inserts an ingredient row. Fails with `ConstraintViolation` when the
    /// id is already taken, the ingredient item does not exist, or a given
    /// recipe id does not exist.
    pub fn create_item_with_amount(&mut self, m: item_with_amount::Model) -> (r: Result<
        item_with_amount::Model,
        Error,
    >)
        requires
            old(self).wf(),
        ensures
            final(self).wf(),
            final(self).craft_types@ == old(self).craft_types@,
            final(self).items@ == old(self).items@,
            final(self).recipes@ == old(self).recipes@,
            !old(self).amount_create_ok(m) ==> r == Err::<item_with_amount::Model, Error>(
                Error::ConstraintViolation,
            ) && final(self).items_with_amount@ == old(self).items_with_amount@,
            old(self).amount_create_ok(m) ==> r == Ok::<item_with_amount::Model, Error>(m)
                && final(self).items_with_amount@ == old(self).items_with_amount@.push(m),
    {
        if contains_key(&self.items_with_amount, m.id) {
            return Err(Error::ConstraintViolation);
        }
        if !contains_key(&self.items, m.ingredient_id) {
            return Err(Error::ConstraintViolation);
        }
        match m.recipe_id {
            Some(rid) => {
                if !contains_key(&self.recipes, rid) {
                    return Err(Error::ConstraintViolation);
                }
            },
            None => {},
        }
        proof {
            lemma_unique_push(self.items_with_amount@, m);
            assert forall|k: int|
                0 <= k < self.items_with_amount@.push(m).len() implies has_key(
                self.items@,
                (#[trigger] self.items_with_amount@.push(m)[k]).ingredient_id,
            ) by {
                if k < self.items_with_amount@.len() {
                    assert(self.items_with_amount@.push(m)[k] == self.items_with_amount@[k]);
                }
            }
        }
        self.items_with_amount.push(m);
        Ok(m)
    }

    /// Returns the ingredient row of key `id`, or `NotFound`.
    pub fn get_item_with_amount(&self, id: i32) -> (r: Result<item_with_amount::Model, Error>)
        ensures
            has_key(self.items_with_amount@, id) ==> (r matches Ok(p) && row_with_key(
                self.items_with_amount@,
                id,
                p,
            )),
            !has_key(self.items_with_amount@, id) ==> r == Err::<item_with_amount::Model, Error>(
                Error::NotFound,
            ),
    {
        match index_of_key(&self.items_with_amount, id) {
            Some(i) => Ok(self.items_with_amount[i]),
            None => Err(Error::NotFound),
        }
    }

    /// Returns every ingredient row, in insertion order.
    pub fn list_items_with_amount(&self) -> (r: Vec<item_with_amount::Model>)
        ensures
            r@ == self.items_with_amount@,
    {
        let mut out: Vec<item_with_amount::Model> = Vec::new();
        let mut i: usize = 0;
        while i < self.items_with_amount.len()
            invariant
                i <= self.items_with_amount.len(),
                out@ == self.items_with_amount@.take(i as int),
            decreases self.items_with_amount.len() - i,
        {
            out.push(self.items_with_amount[i]);
            proof {
                assert(self.items_with_amount@.take(i + 1) =~= self.items_with_amount@.take(
                    i as int,
                ).push(self.items_with_amount@[i as int]));
            }
            i = i + 1;
        }
        proof {
            assert(self.items_with_amount@.take(self.items_with_amount@.len() as int)
                =~= self.items_with_amount@);
        }
        out
    }

    /// Replaces the ingredient row of key `id` by `m`. Fails with
    /// `NotFound` when no row carries `id`, and with `ConstraintViolation`
    /// when a reference of `m` is missing or key uniqueness would break.
    pub fn update_item_with_amount(&mut self, id: i32, m: item_with_amount::Model) -> (r: Result<
        item_with_amount::Model,
        Error,
    >)
        requires
            old(self).wf(),
        ensures
            final(self).wf(),
            final(self).craft_types@ == old(self).craft_types@,
            final(self).items@ == old(self).items@,
            final(self).recipes@ == old(self).recipes@,
            !has_key(old(self).items_with_amount@, id) ==> r == Err::<
                item_with_amount::Model,
                Error,
            >(Error::NotFound) && final(self).items_with_amount@ == old(self).items_with_amount@,
            has_key(old(self).items_with_amount@, id) && !old(self).amount_update_ok(id, m) ==> r
                == Err::<item_with_amount::Model, Error>(Error::ConstraintViolation) && final(self).items_with_amount@ == old(self).items_with_amount@,
            has_key(old(self).items_with_amount@, id) && old(self).amount_update_ok(id, m) ==> r
                == Ok::<item_with_amount::Model, Error>(m) && exists|i: int|
                0 <= i < old(self).items_with_amount@.len() && (#[trigger] old(
                    self,
                ).items_with_amount@[i]).id == id && final(self).items_with_amount@ == old(
                    self,
                ).items_with_amount@.update(i, m),
    {
        let i = match index_of_key(&self.items_with_amount, id) {
            Some(i) => i,
            None => {
                return Err(Error::NotFound);
            },
        };
        if !contains_key(&self.items, m.ingredient_id) {
            return Err(Error::ConstraintViolation);
        }
        match m.recipe_id {
            Some(rid) => {
                if !contains_key(&self.recipes, rid) {
                    return Err(Error::ConstraintViolation);
                }
            },
            None => {},
        }
        if m.id != id {
            if contains_key(&self.items_with_amount, m.id) {
                return Err(Error::ConstraintViolation);
            }
        }
        proof {
            lemma_unique_update(self.items_with_amount@, i as int, m);
            assert forall|k: int|
                0 <= k < self.items_with_amount@.update(i as int, m).len() implies has_key(
                self.items@,
                (#[trigger] self.items_with_amount@.update(i as int, m)[k]).ingredient_id,
            ) by {
                if k != i {
                    assert(self.items_with_amount@.update(i as int, m)[k]
                        == self.items_with_amount@[k]);
                }
            }
        }
        self.items_with_amount[i] = m;
        Ok(m)
    }

    /// Deletes the ingredient row of key `id`. Fails with `NotFound` when
    /// no row carries `id`.
    pub fn delete_item_with_amount(&mut self, id: i32) -> (r: Result<(), Error>)
        requires
            old(self).wf(),
        ensures
            final(self).wf(),
            final(self).craft_types@ == old(self).craft_types@,
            final(self).items@ == old(self).items@,
            final(self).recipes@ == old(self).recipes@,
            !has_key(old(self).items_with_amount@, id) ==> r == Err::<(), Error>(Error::NotFound)
                && final(self).items_with_amount@ == old(self).items_with_amount@,
            has_key(old(self).items_with_amount@, id) ==> r == Ok::<(), Error>(()) && exists|
                i: int,
            |
                0 <= i < old(self).items_with_amount@.len() && (#[trigger] old(
                    self,
                ).items_with_amount@[i]).id == id && final(self).items_with_amount@ == old(
                    self,
                ).items_with_amount@.remove(i),
    {
        let i = match index_of_key(&self.items_with_amount, id) {
            Some(i) => i,
            None => {
                return Err(Error::NotFound);
            },
        };
        proof {
            lemma_unique_remove(self.items_with_amount@, i as int);
            assert forall|k: int|
                0 <= k < self.items_with_amount@.remove(i as int).len() implies has_key(
                self.items@,
                (#[trigger] self.items_with_amount@.remove(i as int)[k]).ingredient_id,
            ) by {
                if k < i {
                    assert(self.items_with_amount@.remove(i as int)[k]
                        == self.items_with_amount@[k]);
                } else {
                    assert(self.items_with_amount@.remove(i as int)[k]
                        == self.items_with_amount@[k + 1]);
                }
            }
        }
        self.items_with_amount.remove(i);
        Ok(())
    }

    /// Returns the recipes that belong to the craft type `cid`, in
    /// insertion order.
    pub fn recipes_for_craft_type(&self, cid: i32) -> (r: Vec<recipes::Model>)
        ensures
            r@ == for_craft_type(self.recipes@, cid),
    {
        let mut out: Vec<recipes::Model> = Vec::new();
        let mut i: usize = 0;
        while i < self.recipes.len()
            invariant
                i <= self.recipes.len(),
                out@ == for_craft_type(self.recipes@.take(i as int), cid),
            decreases self.recipes.len() - i,
        {
            let row = self.recipes[i];
            proof {
                broadcast use Seq::group_seq_extra;

                assert(self.recipes@.take(i + 1) =~= self.recipes@.take(i as int).push(row));
                assert(for_craft_type(self.recipes@.take(i + 1), cid) == for_craft_type(
                    self.recipes@.take(i as int).push(row),
                    cid,
                ));
            }
            if row.craft_type_id == cid {
                out.push(row);
            }
            i = i + 1;
        }
        proof {
            assert(self.recipes@.take(self.recipes@.len() as int) =~= self.recipes@);
        }
        out
    }

    /// Returns the ingredient rows attached to the recipe `rid`, in
    /// insertion order. Rows without a recipe never appear, whatever `rid`
    /// is; rows whose recipe is already deleted still do.
    pub fn items_with_amount_for_recipe(&self, rid: i32) -> (r: Vec<item_with_amount::Model>)
        ensures
            r@ == for_recipe(self.items_with_amount@, rid),
    {
        let mut out: Vec<item_with_amount::Model> = Vec::new();
        let mut i: usize = 0;
        while i < self.items_with_amount.len()
            invariant
                i <= self.items_with_amount.len(),
                out@ == for_recipe(self.items_with_amount@.take(i as int), rid),
            decreases self.items_with_amount.len() - i,
        {
            let row = self.items_with_amount[i];
            proof {
                broadcast use Seq::group_seq_extra;

                assert(self.items_with_amount@.take(i + 1) =~= self.items_with_amount@.take(
                    i as int,
                ).push(row));
                assert(for_recipe(self.items_with_amount@.take(i + 1), rid) == for_recipe(
                    self.items_with_amount@.take(i as int).push(row),
                    rid,
                ));
            }
            let keep = match row.recipe_id {
                Some(r0) => r0 == rid,
                None => false,
            };
            if keep {
                out.push(row);
            }
            i = i + 1;
        }
        proof {
            assert(self.items_with_amount@.take(self.items_with_amount@.len() as int)
                =~= self.items_with_amount@);
        }
        out
    }

    /// Returns the ingredient rows that reference the item `id`, in
    /// insertion order: the rows a delete of that item would cascade to.
    pub fn amounts_for_item(&self, id: i32) -> (r: Vec<item_with_amount::Model>)
        ensures
            r@ == amounts_referencing(self.items_with_amount@, id),
    {
        let mut out: Vec<item_with_amount::Model> = Vec::new();
        let mut i: usize = 0;
        while i < self.items_with_amount.len()
            invariant
                i <= self.items_with_amount.len(),
                out@ == amounts_referencing(self.items_with_amount@.take(i as int), id),
            decreases self.items_with_amount.len() - i,
        {
            let row = self.items_with_amount[i];
            proof {
                broadcast use Seq::group_seq_extra;

                assert(self.items_with_amount@.take(i + 1) =~= self.items_with_amount@.take(
                    i as int,
                ).push(row));
                assert(amounts_referencing(self.items_with_amount@.take(i + 1), id)
                    == amounts_referencing(self.items_with_amount@.take(i as int).push(row), id));
            }
            if row.ingredient_id == id {
                out.push(row);
            }
            i = i + 1;
        }
        proof {
            assert(self.items_with_amount@.take(self.items_with_amount@.len() as int)
                =~= self.items_with_amount@);
        }
        out
    }

    /// Resolves the ingredient item of the ingredient row of key `id`.
    /// Fails with `NotFound` when no such row exists; when it does, the
    /// store's integrity guarantees the item is found.
    pub fn ingredient_for_amount(&self, id: i32) -> (r: Result<items::Model, Error>)
        requires
            self.wf(),
        ensures
            !has_key(self.items_with_amount@, id) ==> r == Err::<items::Model, Error>(
                Error::NotFound,
            ),
            has_key(self.items_with_amount@, id) ==> (r matches Ok(p) && exists|i: int|
                0 <= i < self.items_with_amount@.len() && (#[trigger] self.items_with_amount@[i]).id
                    == id && row_with_key(
                    self.items@,
                    self.items_with_amount@[i].ingredient_id,
                    p,
                )),
    {
        let i = match index_of_key(&self.items_with_amount, id) {
            Some(i) => i,
            None => {
                return Err(Error::NotFound);
            },
        };
        let row = self.items_with_amount[i];
        match index_of_key(&self.items, row.ingredient_id) {
            Some(k) => Ok(self.items[k].duplicate()),
            None => {
                proof {
                    assert(has_key(self.items@, self.items_with_amount@[i as int].ingredient_id));
                }
                Err(Error::NotFound)
            },
        }
    }
}

} // verus!
