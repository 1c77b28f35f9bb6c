//! Records found by a string key.
//!
//! A table is a vector of records in which no key occurs twice. Its
//! mathematical model is the finite map from each key to the view of the
//! record that carries it.

use vstd::prelude::*;
use crate::models::{BasicFood, CompositeFood, User};

verus! {

/// A record that is found by a string key.
pub trait Keyed: View {
    /// The key of this record.
    spec fn key(&self) -> Seq<char>;

    fn key_text(&self) -> (text: &str)
        ensures
            text@ == self.key(),
    ;
}

impl Keyed for BasicFood {
    open spec fn key(&self) -> Seq<char> {
        self.id@
    }

    fn key_text(&self) -> (text: &str) {
        self.id.as_str()
    }
}

impl Keyed for CompositeFood {
    open spec fn key(&self) -> Seq<char> {
        self.id@
    }

    fn key_text(&self) -> (text: &str) {
        self.id.as_str()
    }
}

impl Keyed for User {
    open spec fn key(&self) -> Seq<char> {
        self.user_id@
    }

    fn key_text(&self) -> (text: &str) {
        self.user_id.as_str()
    }
}

/// Some record of `items` has the key `key`.
pub open spec fn holds_key<T: Keyed>(items: Seq<T>, key: Seq<char>) -> bool {
    exists|i: int| 0 <= i < items.len() && #[trigger] items[i].key() == key
}

/// The place of a record with the key `key`, where there is one.
pub open spec fn position_of<T: Keyed>(items: Seq<T>, key: Seq<char>) -> int {
    choose|i: int| 0 <= i < items.len() && #[trigger] items[i].key() == key
}

/// No key occurs twice in `items`.
pub open spec fn distinct_keys<T: Keyed>(items: Seq<T>) -> bool {
    forall|i: int, j: int|
        0 <= i < items.len() && 0 <= j < items.len() && i != j ==> #[trigger] items[i].key()
            != #[trigger] items[j].key()
}

/// The map from each key of `items` to the view of its record.
pub open spec fn table<T: Keyed>(items: Seq<T>) -> Map<Seq<char>, T::V> {
    Map::new(
        |key: Seq<char>| holds_key(items, key),
        |key: Seq<char>| items[position_of(items, key)]@,
    )
}

/// Every record of a table is found under its own key.
pub proof fn lemma_table_entry<T: Keyed>(items: Seq<T>, i: int)
    requires
        distinct_keys(items),
        0 <= i < items.len(),
    ensures
        table(items).contains_key(items[i].key()),
        table(items)[items[i].key()] == items[i]@,
{
    let key = items[i].key();
    let found = position_of(items, key);
    assert(0 <= found < items.len() && items[found].key() == key);
}

/// A table has finitely many keys.
pub proof fn lemma_table_finite<T: Keyed>(items: Seq<T>)
    ensures
        table(items).dom().finite(),
{
    let keys = items.map_values(|t: T| t.key());
    vstd::seq_lib::seq_to_set_is_finite(keys);
    assert(table(items).dom() =~= keys.to_set()) by {
        assert forall|key: Seq<char>| table(items).dom().contains(key) implies keys.to_set().contains(
            key,
        ) by {
            let i = position_of(items, key);
            assert(keys[i] == key);
        }
        assert forall|key: Seq<char>| keys.to_set().contains(key) implies table(
            items,
        ).dom().contains(key) by {
            let i = choose|i: int| 0 <= i < keys.len() && keys[i] == key;
            assert(items[i].key() == key);
        }
    }
}

/// Adding a record under a new key adds one entry to the table.
pub proof fn lemma_table_push<T: Keyed>(items: Seq<T>, item: T)
    requires
        distinct_keys(items),
        !holds_key(items, item.key()),
    ensures
        distinct_keys(items.push(item)),
        table(items.push(item)) == table(items).insert(item.key(), item@),
{
    let grown = items.push(item);
    assert(distinct_keys(grown)) by {
        assert forall|i: int, j: int|
            0 <= i < grown.len() && 0 <= j < grown.len() && i != j implies #[trigger] grown[i].key()
                != #[trigger] grown[j].key() by {
            if i < items.len() && j < items.len() {
                assert(items[i].key() != items[j].key());
            } else if i < items.len() {
                assert(items[i].key() != item.key());
            } else {
                assert(items[j].key() != item.key());
            }
        }
    }
    let target = table(items).insert(item.key(), item@);
    assert forall|key: Seq<char>| #[trigger]
        table(grown).dom().contains(key) == target.dom().contains(key) by {
        if table(grown).dom().contains(key) {
            let i = position_of(grown, key);
            if i < items.len() {
                assert(items[i].key() == key);
            }
        }
        if target.dom().contains(key) {
            if key == item.key() {
                assert(grown[items.len() as int].key() == key);
            } else {
                let i = position_of(items, key);
                assert(grown[i].key() == key);
            }
        }
    }
    assert forall|key: Seq<char>| #[trigger] table(grown).dom().contains(key) implies table(
        grown,
    )[key] == target[key] by {
        if key == item.key() {
            lemma_table_entry(grown, items.len() as int);
        } else {
            let i = position_of(items, key);
            assert(grown[i].key() == key);
            lemma_table_entry(grown, i);
            lemma_table_entry(items, i);
        }
    }
    assert(table(grown) =~= target);
}

/// Replacing a record by one with the same key replaces its entry in the table.
pub proof fn lemma_table_replace<T: Keyed>(items: Seq<T>, i: int, item: T)
    requires
        distinct_keys(items),
        0 <= i < items.len(),
        items[i].key() == item.key(),
    ensures
        distinct_keys(items.update(i, item)),
        table(items.update(i, item)) == table(items).insert(item.key(), item@),
{
    let changed = items.update(i, item);
    assert(distinct_keys(changed)) by {
        assert forall|a: int, b: int|
            0 <= a < changed.len() && 0 <= b < changed.len() && a != b implies
            #[trigger] changed[a].key() != #[trigger] changed[b].key() by {
            assert(items[a].key() != items[b].key());
        }
    }
    let target = table(items).insert(item.key(), item@);
    assert forall|key: Seq<char>| #[trigger]
        table(changed).dom().contains(key) == target.dom().contains(key) by {
        if table(changed).dom().contains(key) {
            let a = position_of(changed, key);
            assert(items[a].key() == key);
        }
        if target.dom().contains(key) {
            if key == item.key() {
                assert(changed[i].key() == key);
            } else {
                let a = position_of(items, key);
                assert(changed[a].key() == key);
            }
        }
    }
    assert forall|key: Seq<char>| #[trigger] table(changed).dom().contains(key) implies table(
        changed,
    )[key] == target[key] by {
        if key == item.key() {
            lemma_table_entry(changed, i);
        } else {
            let a = position_of(items, key);
            assert(changed[a].key() == key);
            lemma_table_entry(changed, a);
            lemma_table_entry(items, a);
        }
    }
    assert(table(changed) =~= target);
}

/// Two lists whose records agree place by place are the same table.
pub proof fn lemma_table_copy<T: Keyed>(items: Seq<T>, copy: Seq<T>)
    requires
        distinct_keys(items),
        items.len() == copy.len(),
        forall|i: int|
            0 <= i < items.len() ==> #[trigger] copy[i].key() == items[i].key() && copy[i]@
                == items[i]@,
    ensures
        distinct_keys(copy),
        table(copy) == table(items),
{
    assert(distinct_keys(copy)) by {
        assert forall|a: int, b: int|
            0 <= a < copy.len() && 0 <= b < copy.len() && a != b implies #[trigger] copy[a].key()
                != #[trigger] copy[b].key() by {
            assert(items[a].key() != items[b].key());
        }
    }
    assert forall|key: Seq<char>| #[trigger]
        table(copy).dom().contains(key) == table(items).dom().contains(key) by {
        if table(copy).dom().contains(key) {
            let a = position_of(copy, key);
            assert(items[a].key() == key);
        }
        if table(items).dom().contains(key) {
            let a = position_of(items, key);
            assert(copy[a].key() == key);
        }
    }
    assert forall|key: Seq<char>| #[trigger] table(copy).dom().contains(key) implies table(
        copy,
    )[key] == table(items)[key] by {
        let a = position_of(items, key);
        assert(copy[a].key() == key);
        lemma_table_entry(copy, a);
        lemma_table_entry(items, a);
    }
    assert(table(copy) =~= table(items));
}

/// Every key of a table is the key of the record at its place.
pub proof fn lemma_table_key<T: Keyed>(items: Seq<T>, key: Seq<char>)
    requires
        table(items).contains_key(key),
    ensures
        0 <= position_of(items, key) < items.len(),
        items[position_of(items, key)].key() == key,
        table(items)[key] == items[position_of(items, key)]@,
{
}

/// The place of the record with the key `key`, if there is one.
pub fn find_key<T: Keyed>(items: &Vec<T>, key: &str) -> (found: Option<usize>)
    ensures
        match found {
            Some(i) => i < items.len() && items[i as int].key() == key@,
            None => !holds_key(items@, key@),
        },
{
    let mut i: usize = 0;
    while i < items.len()
        invariant
            i <= items.len(),
            forall|j: int| 0 <= j < i ==> #[trigger] items[j].key() != key@,
        decreases items.len() - i,
    {
        if items[i].key_text().eq(key) {
            return Some(i);
        }
        i = i + 1;
    }
    None
}

/// Stores `item` under its key, in place of the record that had that key
/// before, if there was one.
pub fn put<T: Keyed>(items: &mut Vec<T>, item: T)
    requires
        distinct_keys(old(items)@),
    ensures
        distinct_keys(final(items)@),
        table(final(items)@) == table(old(items)@).insert(item.key(), item@),
{
    match find_key(items, item.key_text()) {
        Some(i) => {
            proof {
                lemma_table_replace(items@, i as int, item);
            }
            items.set(i, item);
        },
        None => {
            proof {
                lemma_table_push(items@, item);
            }
            items.push(item);
        },
    }
}

} // verus!
