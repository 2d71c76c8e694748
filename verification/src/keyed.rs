//! Rows addressed by an integer primary key.
//!
//! All four entity tables are sequences of rows that carry an `i32` primary
//! key. This module gives the common vocabulary: the [`Keyed`] trait, the
//! spec predicates over a table (`has_key`, `unique_keys`, `row_with_key`),
//! the key lookup used by every table operation, and the lemmas about how
//! the predicates move across `push`, `remove` and `update`.

use vstd::prelude::*;

verus! {

/// A row with an integer primary key.
pub trait Keyed: Sized {
    /// The row's primary key, at the specification level.
    spec fn key_spec(&self) -> i32;

    /// The row's primary key.
    fn key(&self) -> (k: i32)
        ensures
            k == self.key_spec(),
    ;
}

/// Some row of `s` carries the key `id`.
pub open spec fn has_key<T: Keyed>(s: Seq<T>, id: i32) -> bool {
    exists|i: int| 0 <= i < s.len() && (#[trigger] s[i].key_spec()) == id
}

/// No two rows of `s` share a primary key.
pub open spec fn unique_keys<T: Keyed>(s: Seq<T>) -> bool {
    forall|i: int, j: int|
        #![trigger s[i].key_spec(), s[j].key_spec()]
        0 <= i < s.len() && 0 <= j < s.len() && i != j ==> s[i].key_spec() != s[j].key_spec()
}

/// `r` is a row of `s` and carries the key `id`.
pub open spec fn row_with_key<T: Keyed>(s: Seq<T>, id: i32, r: T) -> bool {
    exists|i: int| 0 <= i < s.len() && (#[trigger] s[i]) == r && r.key_spec() == id
}

/// The position of the row of `v` that carries the key `id`, if any.
pub fn index_of_key<T: Keyed>(v: &Vec<T>, id: i32) -> (r: Option<usize>)
    ensures
        match r {
            Some(i) => i < v.len() && v@[i as int].key_spec() == id,
            None => !has_key(v@, id),
        },
{
    let mut i: usize = 0;
    while i < v.len()
        invariant
            i <= v.len(),
            forall|j: int| 0 <= j < i ==> (#[trigger] v@[j].key_spec()) != id,
        decreases v.len() - i,
    {
        if v[i].key() == id {
            return Some(i);
        }
        i = i + 1;
    }
    None
}

/// Whether some row of `v` carries the key `id`.
pub fn contains_key<T: Keyed>(v: &Vec<T>, id: i32) -> (r: bool)
    ensures
        r == has_key(v@, id),
{
    match index_of_key(v, id) {
        Some(_) => true,
        None => false,
    }
}

/// A key present in a table is still present after a row is appended.
pub proof fn lemma_has_key_push<T: Keyed>(s: Seq<T>, m: T, id: i32)
    requires
        has_key(s, id),
    ensures
        has_key(s.push(m), id),
{
    let i = choose|i: int| 0 <= i < s.len() && (#[trigger] s[i].key_spec()) == id;
    assert(s.push(m)[i].key_spec() == id);
}

/// A key present in a table is still present after a row with a different
/// key is removed.
pub proof fn lemma_has_key_remove<T: Keyed>(s: Seq<T>, i: int, id: i32)
    requires
        0 <= i < s.len(),
        s[i].key_spec() != id,
        has_key(s, id),
    ensures
        has_key(s.remove(i), id),
{
    let w = choose|w: int| 0 <= w < s.len() && (#[trigger] s[w].key_spec()) == id;
    if w < i {
        assert(s.remove(i)[w].key_spec() == id);
    } else {
        assert(s.remove(i)[w - 1].key_spec() == id);
    }
}

/// Appending a row with a fresh key keeps the keys unique.
pub proof fn lemma_unique_push<T: Keyed>(s: Seq<T>, m: T)
    requires
        unique_keys(s),
        !has_key(s, m.key_spec()),
    ensures
        unique_keys(s.push(m)),
{
    assert forall|i: int, j: int|
        #![trigger s.push(m)[i].key_spec(), s.push(m)[j].key_spec()]
        0 <= i < s.push(m).len() && 0 <= j < s.push(m).len() && i != j implies s.push(m)[i].key_spec()
        != s.push(m)[j].key_spec() by {
        if i < s.len() && j < s.len() {
            assert(s[i].key_spec() != s[j].key_spec());
        } else if i < s.len() {
            assert(s[i].key_spec() != m.key_spec());
        } else {
            assert(s[j].key_spec() != m.key_spec());
        }
    }
}

/// Removing a row keeps the keys unique.
pub proof fn lemma_unique_remove<T: Keyed>(s: Seq<T>, k: int)
    requires
        unique_keys(s),
        0 <= k < s.len(),
    ensures
        unique_keys(s.remove(k)),
{
    let t = s.remove(k);
    assert forall|i: int, j: int|
        #![trigger t[i].key_spec(), t[j].key_spec()]
        0 <= i < t.len() && 0 <= j < t.len() && i != j implies t[i].key_spec()
        != t[j].key_spec() by {
        let i0: int = if i < k { i } else { i + 1 };
        let j0: int = if j < k { j } else { j + 1 };
        assert(t[i] == s[i0]);
        assert(t[j] == s[j0]);
        assert(s[i0].key_spec() != s[j0].key_spec());
    }
}

/// Replacing the row at position `k` keeps the keys unique, provided the new
/// row keeps the old key or brings one that no row carries.
pub proof fn lemma_unique_update<T: Keyed>(s: Seq<T>, k: int, m: T)
    requires
        unique_keys(s),
        0 <= k < s.len(),
        m.key_spec() == s[k].key_spec() || !has_key(s, m.key_spec()),
    ensures
        unique_keys(s.update(k, m)),
{
    let t = s.update(k, m);
    assert forall|i: int, j: int|
        #![trigger t[i].key_spec(), t[j].key_spec()]
        0 <= i < t.len() && 0 <= j < t.len() && i != j implies t[i].key_spec()
        != t[j].key_spec() by {
        if i != k && j != k {
            assert(t[i] == s[i]);
            assert(t[j] == s[j]);
            assert(s[i].key_spec() != s[j].key_spec());
        } else if i == k {
            assert(t[j] == s[j]);
            if m.key_spec() != s[k].key_spec() {
                assert(s[j].key_spec() != m.key_spec());
            } else {
                assert(s[k].key_spec() != s[j].key_spec());
            }
        } else {
            assert(t[i] == s[i]);
            if m.key_spec() != s[k].key_spec() {
                assert(s[i].key_spec() != m.key_spec());
            } else {
                assert(s[i].key_spec() != s[k].key_spec());
            }
        }
    }
}

/// Dropping the last row keeps the keys unique.
pub proof fn lemma_unique_drop_last<T: Keyed>(s: Seq<T>)
    requires
        unique_keys(s),
        s.len() > 0,
    ensures
        unique_keys(s.drop_last()),
{
    let t = s.drop_last();
    assert forall|i: int, j: int|
        #![trigger t[i].key_spec(), t[j].key_spec()]
        0 <= i < t.len() && 0 <= j < t.len() && i != j implies t[i].key_spec()
        != t[j].key_spec() by {
        assert(t[i] == s[i]);
        assert(t[j] == s[j]);
        assert(s[i].key_spec() != s[j].key_spec());
    }
}

/// A key present in a table is still present after the row at position `k`
/// is replaced, provided the replacement keeps that row's key or the key in
/// question belongs to another row.
pub proof fn lemma_has_key_update<T: Keyed>(s: Seq<T>, k: int, m: T, id: i32)
    requires
        0 <= k < s.len(),
        has_key(s, id),
        m.key_spec() == s[k].key_spec() || id != s[k].key_spec(),
    ensures
        has_key(s.update(k, m), id),
{
    let w = choose|w: int| 0 <= w < s.len() && (#[trigger] s[w].key_spec()) == id;
    if w == k {
        assert(s.update(k, m)[k].key_spec() == id);
    } else {
        assert(s.update(k, m)[w].key_spec() == id);
    }
}

/// Created rows are retrievable unchanged: if a table holds no row with the
/// key of a newly appended row `m`, then the row of the grown table that
/// carries `m`'s key is `m` itself.
pub proof fn lemma_created_row_is_found<T: Keyed>(s: Seq<T>, m: T, r: T)
    requires
        !has_key(s, m.key_spec()),
        row_with_key(s.push(m), m.key_spec(), r),
    ensures
        r == m,
{
    let i = choose|i: int|
        0 <= i < s.push(m).len() && (#[trigger] s.push(m)[i]) == r && r.key_spec() == m.key_spec();
    if i < s.len() {
        assert(s[i].key_spec() == m.key_spec());
    }
}

} // verus!
