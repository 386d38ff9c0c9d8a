//! The mathematical model of typed maps and of the database that owns them: what
//! each operation returns and what state it leaves, and what holds of any sequence
//! of operations as a consequence.

use crate::assoc::{distinct_keys, lemma_to_map_at, lemma_to_map_push, to_map};
use crate::errors::ErrorView;
use crate::types::{TypeSignatureView, Value, ValueView};
use vstd::prelude::*;

verus! {

/// A typed map: two fixed schemas and the entries stored so far.
pub struct DataMapView {
    pub key_type: TypeSignatureView,
    pub value_type: TypeSignatureView,
    pub entries: Map<ValueView, ValueView>,
}

impl DataMapView {
    /// The map with the given schemas and no entry.
    pub open spec fn empty(key_type: TypeSignatureView, value_type: TypeSignatureView) -> Self {
        DataMapView { key_type, value_type, entries: Map::empty() }
    }

    /// Every stored key fits the key schema and every stored value the value schema.
    pub open spec fn well_typed(self) -> bool {
        forall|k: ValueView| #[trigger]
            self.entries.contains_key(k) ==> self.key_type.admits(k) && self.value_type.admits(
                self.entries[k],
            )
    }

    /// The error for a key that the key schema rejects.
    pub open spec fn key_error(self, key: ValueView) -> ErrorView {
        ErrorView::TypeError(self.key_type, key)
    }

    /// The error for a value that the value schema rejects.
    pub open spec fn value_error(self, value: ValueView) -> ErrorView {
        ErrorView::TypeError(self.value_type, value)
    }

    /// The same map with `key` bound to `value`.
    pub open spec fn with_entry(self, key: ValueView, value: ValueView) -> Self {
        DataMapView { entries: self.entries.insert(key, value), ..self }
    }

    /// The same map with no entry for `key`.
    pub open spec fn without_entry(self, key: ValueView) -> Self {
        DataMapView { entries: self.entries.remove(key), ..self }
    }

    /// Reading: the stored value, or void where there is none.
    pub open spec fn fetch_entry(self, key: ValueView) -> Result<ValueView, ErrorView> {
        if !self.key_type.admits(key) {
            Err(self.key_error(key))
        } else if self.entries.contains_key(key) {
            Ok(self.entries[key])
        } else {
            Ok(ValueView::Void)
        }
    }

    /// Writing: binds `key` to `value` whether or not it was bound. Gives the map
    /// afterwards and the outcome.
    pub open spec fn set_entry(self, key: ValueView, value: ValueView) -> (
        Self,
        Result<(), ErrorView>,
    ) {
        if !self.key_type.admits(key) {
            (self, Err(self.key_error(key)))
        } else if !self.value_type.admits(value) {
            (self, Err(self.value_error(value)))
        } else {
            (self.with_entry(key, value), Ok(()))
        }
    }

    /// Writing where nothing is bound yet: binds `key` to `value` and answers true,
    /// or leaves an existing entry alone and answers false.
    pub open spec fn insert_entry(self, key: ValueView, value: ValueView) -> (
        Self,
        Result<ValueView, ErrorView>,
    ) {
        if !self.key_type.admits(key) {
            (self, Err(self.key_error(key)))
        } else if !self.value_type.admits(value) {
            (self, Err(self.value_error(value)))
        } else if self.entries.contains_key(key) {
            (self, Ok(ValueView::Bool(false)))
        } else {
            (self.with_entry(key, value), Ok(ValueView::Bool(true)))
        }
    }

    /// Removing: answers whether there was an entry for `key`.
    pub open spec fn delete_entry(self, key: ValueView) -> (Self, Result<ValueView, ErrorView>) {
        if !self.key_type.admits(key) {
            (self, Err(self.key_error(key)))
        } else if self.entries.contains_key(key) {
            (self.without_entry(key), Ok(ValueView::Bool(true)))
        } else {
            (self, Ok(ValueView::Bool(false)))
        }
    }

    /// Writing a list of entries in order, each as `set_entry` does. The first entry
    /// that is rejected stops the writing, and its error is the outcome.
    pub open spec fn with_entries(self, entries: Seq<(Value, Value)>) -> Result<Self, ErrorView>
        decreases entries.len(),
    {
        if entries.len() == 0 {
            Ok(self)
        } else {
            match self.with_entries(entries.drop_last()) {
                Ok(written) => {
                    let (next, outcome) = written.set_entry(entries.last().0@, entries.last().1@);
                    match outcome {
                        Ok(_) => Ok(next),
                        Err(error) => Err(error),
                    }
                },
                Err(error) => Err(error),
            }
        }
    }
}

/// A database: typed maps by name.
pub struct DatabaseView {
    pub maps: Map<Seq<char>, DataMapView>,
}

impl DatabaseView {
    /// The database with no map.
    pub open spec fn empty() -> Self {
        DatabaseView { maps: Map::empty() }
    }

    /// The map called `name`, if there is one.
    pub open spec fn get_map(self, name: Seq<char>) -> Option<DataMapView> {
        if self.maps.contains_key(name) {
            Some(self.maps[name])
        } else {
            None
        }
    }

    /// The same database with `map` under `name`, in place of what was there.
    pub open spec fn with_map(self, name: Seq<char>, map: DataMapView) -> Self {
        DatabaseView { maps: self.maps.insert(name, map) }
    }

    /// `names` lists the names of the maps, each once.
    pub open spec fn listed_by(self, names: Seq<String>) -> bool {
        &&& forall|i: int, j: int|
            0 <= i < j < names.len() ==> (#[trigger] names[i])@ != (#[trigger] names[j])@
        &&& forall|name: Seq<char>|
            self.maps.contains_key(name) <==> exists|i: int|
                0 <= i < names.len() && (#[trigger] names[i])@ == name
    }

    /// Installs an empty map with the given schemas under `name`, in place of any
    /// map of that name.
    pub open spec fn create_map(
        self,
        name: Seq<char>,
        key_type: TypeSignatureView,
        value_type: TypeSignatureView,
    ) -> Self {
        self.with_map(name, DataMapView::empty(key_type, value_type))
    }
}

/// A value written with `set_entry` is the value that `fetch_entry` then reads.
pub proof fn lemma_set_then_fetch(map: DataMapView, key: ValueView, value: ValueView)
    requires
        map.key_type.admits(key),
        map.value_type.admits(value),
    ensures
        map.set_entry(key, value).1 == Ok::<(), ErrorView>(()),
        map.set_entry(key, value).0.fetch_entry(key) == Ok::<ValueView, ErrorView>(value),
{
}

/// Reading an admitted key that has no entry gives void, not an error; so does
/// reading any admitted key of a map just created.
pub proof fn lemma_fetch_absent(map: DataMapView, key: ValueView)
    requires
        map.key_type.admits(key),
    ensures
        !map.entries.contains_key(key) ==> map.fetch_entry(key) == Ok::<ValueView, ErrorView>(
            ValueView::Void,
        ),
        DataMapView::empty(map.key_type, map.value_type).fetch_entry(key) == Ok::<
            ValueView,
            ErrorView,
        >(ValueView::Void),
{
}

/// `insert_entry` answers true exactly when the key has no entry. After it has
/// answered true, a second `insert_entry` on that key answers false for any admitted
/// value and changes nothing, so the value stored first is still read.
pub proof fn lemma_insert_once(map: DataMapView, key: ValueView, first: ValueView, second: ValueView)
    requires
        map.key_type.admits(key),
        map.value_type.admits(first),
        map.value_type.admits(second),
    ensures
        map.insert_entry(key, first).1 == Ok::<ValueView, ErrorView>(
            ValueView::Bool(!map.entries.contains_key(key)),
        ),
        !map.entries.contains_key(key) ==> {
            let stored = map.insert_entry(key, first).0;
            &&& stored.insert_entry(key, second) == (
                stored,
                Ok::<ValueView, ErrorView>(ValueView::Bool(false)),
            )
            &&& stored.fetch_entry(key) == Ok::<ValueView, ErrorView>(first)
        },
{
}

/// An entry stays until it is deleted: no `set_entry` or `insert_entry`, on any key,
/// and no `delete_entry` on another key removes it. Until then `insert_entry` on its
/// key answers false.
pub proof fn lemma_entry_stays(map: DataMapView, key: ValueView, other: ValueView, value: ValueView)
    requires
        map.entries.contains_key(key),
    ensures
        map.set_entry(other, value).0.entries.contains_key(key),
        map.insert_entry(other, value).0.entries.contains_key(key),
        other != key ==> map.delete_entry(other).0.entries.contains_key(key),
{
}

/// `delete_entry` answers true exactly when the key had an entry. Afterwards the key
/// reads as void, and `insert_entry` on it answers true again.
pub proof fn lemma_delete(map: DataMapView, key: ValueView, value: ValueView)
    requires
        map.key_type.admits(key),
        map.value_type.admits(value),
    ensures
        map.delete_entry(key).1 == Ok::<ValueView, ErrorView>(
            ValueView::Bool(map.entries.contains_key(key)),
        ),
        map.delete_entry(key).0.fetch_entry(key) == Ok::<ValueView, ErrorView>(ValueView::Void),
        map.delete_entry(key).0.insert_entry(key, value).1 == Ok::<ValueView, ErrorView>(
            ValueView::Bool(true),
        ),
{
}

/// A key that the key schema rejects makes every operation fail with a type error
/// that names the key schema and the key, and the map stays as it was.
pub proof fn lemma_rejected_key(map: DataMapView, key: ValueView, value: ValueView)
    requires
        !map.key_type.admits(key),
    ensures
        map.fetch_entry(key) == Err::<ValueView, ErrorView>(
            ErrorView::TypeError(map.key_type, key),
        ),
        map.set_entry(key, value) == (
            map,
            Err::<(), ErrorView>(ErrorView::TypeError(map.key_type, key)),
        ),
        map.insert_entry(key, value) == (
            map,
            Err::<ValueView, ErrorView>(ErrorView::TypeError(map.key_type, key)),
        ),
        map.delete_entry(key) == (
            map,
            Err::<ValueView, ErrorView>(ErrorView::TypeError(map.key_type, key)),
        ),
{
}

/// A value that the value schema rejects, with an admitted key, makes both writing
/// operations fail with a type error that names the value schema and the value, and
/// the map stays as it was.
pub proof fn lemma_rejected_value(map: DataMapView, key: ValueView, value: ValueView)
    requires
        map.key_type.admits(key),
        !map.value_type.admits(value),
    ensures
        map.set_entry(key, value) == (
            map,
            Err::<(), ErrorView>(ErrorView::TypeError(map.value_type, value)),
        ),
        map.insert_entry(key, value) == (
            map,
            Err::<ValueView, ErrorView>(ErrorView::TypeError(map.value_type, value)),
        ),
{
}

/// No operation changes a map's schemas, and each leaves a well-typed map well typed.
pub proof fn lemma_operations_keep_typing(map: DataMapView, key: ValueView, value: ValueView)
    ensures
        map.set_entry(key, value).0.key_type == map.key_type,
        map.set_entry(key, value).0.value_type == map.value_type,
        map.insert_entry(key, value).0.key_type == map.key_type,
        map.insert_entry(key, value).0.value_type == map.value_type,
        map.delete_entry(key).0.key_type == map.key_type,
        map.delete_entry(key).0.value_type == map.value_type,
        DataMapView::empty(map.key_type, map.value_type).well_typed(),
        map.well_typed() ==> map.set_entry(key, value).0.well_typed(),
        map.well_typed() ==> map.insert_entry(key, value).0.well_typed(),
        map.well_typed() ==> map.delete_entry(key).0.well_typed(),
{
}

/// What a well-typed map stores under a key fits the value schema, so a successful
/// read gives void or a value of the value schema.
pub proof fn lemma_fetch_is_typed(map: DataMapView, key: ValueView)
    requires
        map.well_typed(),
    ensures
        match map.fetch_entry(key) {
            Ok(value) => value == ValueView::Void || map.value_type.admits(value),
            Err(_) => !map.key_type.admits(key),
        },
{
}

/// Creating a map under a name that is taken discards the entries stored under that
/// name: the new map is empty, with the new schemas. Maps of other names are as they
/// were.
pub proof fn lemma_create_map_resets(
    db: DatabaseView,
    name: Seq<char>,
    key_type: TypeSignatureView,
    value_type: TypeSignatureView,
    other: Seq<char>,
)
    ensures
        db.create_map(name, key_type, value_type).get_map(name) == Some(
            DataMapView::empty(key_type, value_type),
        ),
        db.create_map(name, key_type, value_type).maps[name].entries == Map::<
            ValueView,
            ValueView,
        >::empty(),
        other != name ==> db.create_map(name, key_type, value_type).get_map(other) == db.get_map(
            other,
        ),
{
}

/// What is done to the map under one name leaves the maps of all other names as
/// they were, and is what that name then gives.
pub proof fn lemma_with_map_is_local(
    db: DatabaseView,
    name: Seq<char>,
    map: DataMapView,
    other: Seq<char>,
)
    ensures
        db.with_map(name, map).get_map(name) == Some(map),
        other != name ==> db.with_map(name, map).get_map(other) == db.get_map(other),
{
}

/// Once an entry has been rejected, writing further entries after it changes nothing
/// of the outcome.
pub proof fn lemma_with_entries_stops(map: DataMapView, entries: Seq<(Value, Value)>, n: int)
    requires
        0 <= n <= entries.len(),
        map.with_entries(entries.take(n)) is Err,
    ensures
        map.with_entries(entries) == map.with_entries(entries.take(n)),
    decreases entries.len() - n,
{
    if n == entries.len() {
        assert(entries.take(n) =~= entries);
    } else {
        assert(entries.take(n + 1).drop_last() =~= entries.take(n));
        lemma_with_entries_stops(map, entries, n + 1);
    }
}

/// A map is restored from its schemas and its entries: writing the entries of a
/// well-typed map, listed once each in any order, into an empty map with the same
/// schemas gives that map again.
pub proof fn lemma_restore_round_trip(map: DataMapView, entries: Seq<(Value, Value)>)
    requires
        map.well_typed(),
        distinct_keys(entries),
        to_map(entries) == map.entries,
    ensures
        DataMapView::empty(map.key_type, map.value_type).with_entries(entries) == Ok::<
            DataMapView,
            ErrorView,
        >(map),
    decreases entries.len(),
{
    let start = DataMapView::empty(map.key_type, map.value_type);
    if entries.len() == 0 {
        assert(map.entries =~= Map::empty());
    } else {
        let rest = entries.drop_last();
        let last = entries.last();
        let n = entries.len() - 1;
        assert(entries =~= rest.push(last));
        assert(distinct_keys(rest)) by {
            assert forall|i: int, j: int| 0 <= i < j < rest.len() implies (#[trigger] rest[i]).0@ != (
            #[trigger] rest[j]).0@ by {
                assert(entries[i].0@ != entries[j].0@);
            }
        }
        assert(!crate::assoc::has_key(rest, last.0@)) by {
            assert forall|i: int| 0 <= i < rest.len() implies (#[trigger] rest[i]).0@ != last.0@ by {
                assert(entries[i].0@ != entries[n].0@);
            }
        }
        lemma_to_map_push(rest, last);
        lemma_to_map_at(entries, n);
        let before = DataMapView { entries: to_map(rest), ..map };
        assert(before.well_typed()) by {
            assert forall|k: ValueView| #[trigger] before.entries.contains_key(k) implies before.key_type.admits(
                k,
            ) && before.value_type.admits(before.entries[k]) by {
                assert(map.entries.contains_key(k));
                assert(map.entries[k] == before.entries[k]);
            }
        }
        lemma_restore_round_trip(before, rest);
        assert(before.with_entry(last.0@, last.1@) == map);
    }
}

} // verus!
