//! Typed maps and the database that owns them, held in memory.

use crate::assoc::{
    distinct_keys, has_key, index_of, lemma_to_map_absent, lemma_to_map_at, lemma_to_map_push,
    lemma_to_map_remove, lemma_to_map_same_views, lemma_to_map_update, to_map,
};
use crate::errors::{Error, ErrorView, InterpreterResult};
use crate::model::{lemma_with_entries_stops, DataMapView, DatabaseView};
use crate::types::{TupleTypeSignature, TypeSignature, Value, ValueView};
use vstd::prelude::*;

verus! {

/// What an operation that answers with a value returned, as the model sees it.
pub open spec fn value_outcome(r: InterpreterResult<Value>) -> Result<ValueView, ErrorView> {
    match r {
        Ok(value) => Ok(value@),
        Err(error) => Err(error@),
    }
}

/// What an operation that answers with nothing returned, as the model sees it.
pub open spec fn unit_outcome(r: InterpreterResult<()>) -> Result<(), ErrorView> {
    match r {
        Ok(_) => Ok(()),
        Err(error) => Err(error@),
    }
}

/// A store of entries under one key schema and one value schema. Each operation
/// checks its arguments against the schemas before it changes anything.
pub trait DataMap: View<V = DataMapView> {
    /// Reads the value stored under `key`, or void where nothing is stored.
    fn fetch_entry(&self, key: &Value) -> (r: InterpreterResult<Value>)
        ensures
            self@.well_typed(),
            value_outcome(r) == self@.fetch_entry(key@),
    ;

    /// Stores `value` under `key`, in place of what was there.
    fn set_entry(&mut self, key: Value, value: Value) -> (r: InterpreterResult<()>)
        ensures
            final(self)@.well_typed(),
            (final(self)@, unit_outcome(r)) == old(self)@.set_entry(key@, value@),
    ;

    /// Stores `value` under `key` if nothing is stored there, and answers whether
    /// it did.
    fn insert_entry(&mut self, key: Value, value: Value) -> (r: InterpreterResult<Value>)
        ensures
            final(self)@.well_typed(),
            (final(self)@, value_outcome(r)) == old(self)@.insert_entry(key@, value@),
    ;

    /// Removes what is stored under `key`, and answers whether there was anything.
    fn delete_entry(&mut self, key: &Value) -> (r: InterpreterResult<Value>)
        ensures
            final(self)@.well_typed(),
            (final(self)@, value_outcome(r)) == old(self)@.delete_entry(key@),
    ;
}

/// A typed map that keeps its entries in memory.
#[derive(Debug)]
pub struct MemoryDataMap {
    entries: Vec<(Value, Value)>,
    key_type: TypeSignature,
    value_type: TypeSignature,
}

impl View for MemoryDataMap {
    type V = DataMapView;

    closed spec fn view(&self) -> DataMapView {
        DataMapView {
            key_type: self.key_type@,
            value_type: self.value_type@,
            entries: to_map(self.entries@),
        }
    }
}

impl MemoryDataMap {
    #[verifier::type_invariant]
    spec fn inv(&self) -> bool {
        &&& distinct_keys(self.entries@)
        &&& forall|i: int|
            0 <= i < self.entries@.len() ==> {
                &&& self.key_type@.admits((#[trigger] self.entries@[i]).0@)
                &&& self.value_type@.admits(self.entries@[i].1@)
            }
    }

    /// An empty map whose keys and values are tuples of the given shapes.
    pub fn new(key_type: TupleTypeSignature, value_type: TupleTypeSignature) -> (r: MemoryDataMap)
        ensures
            r@ == DataMapView::empty(key_type.signature(), value_type.signature()),
    {
        let r = MemoryDataMap {
            entries: Vec::new(),
            key_type: key_type.into_signature(),
            value_type: value_type.into_signature(),
        };
        assert(r@.entries =~= Map::empty());
        r
    }

    /// The schema that every key of this map fits.
    pub fn key_type(&self) -> (r: &TypeSignature)
        ensures
            r@ == self@.key_type,
    {
        &self.key_type
    }

    /// The schema that every value of this map fits.
    pub fn value_type(&self) -> (r: &TypeSignature)
        ensures
            r@ == self@.value_type,
    {
        &self.value_type
    }

    /// A copy of the entries, each key once, in no particular order: with the two
    /// schemas, all that is needed to build the map again.
    pub fn entries(&self) -> (r: Vec<(Value, Value)>)
        ensures
            distinct_keys(r@),
            to_map(r@) == self@.entries,
    {
        proof {
            use_type_invariant(self);
        }
        let mut copy: Vec<(Value, Value)> = Vec::new();
        let mut i: usize = 0;
        while i < self.entries.len()
            invariant
                0 <= i <= self.entries@.len(),
                copy@.len() == i,
                forall|j: int| 0 <= j < i ==> (#[trigger] copy@[j])@ == self.entries@[j]@,
            decreases self.entries@.len() - i,
        {
            copy.push((self.entries[i].0.clone(), self.entries[i].1.clone()));
            i = i + 1;
        }
        proof {
            lemma_to_map_same_views(self.entries@, copy@);
        }
        copy
    }

    /// Builds a map from two schemas and a list of entries, writing the entries in
    /// order as `set_entry` does: of two entries with the same key the later one
    /// stays, and the first entry that does not fit the schemas is refused with its
    /// error.
    pub fn restore(
        key_type: TypeSignature,
        value_type: TypeSignature,
        entries: &Vec<(Value, Value)>,
    ) -> (r: InterpreterResult<MemoryDataMap>)
        ensures
            match r {
                Ok(map) => DataMapView::empty(key_type@, value_type@).with_entries(entries@) == Ok::<
                    DataMapView,
                    ErrorView,
                >(map@) && map@.well_typed(),
                Err(error) => DataMapView::empty(key_type@, value_type@).with_entries(entries@)
                    == Err::<DataMapView, ErrorView>(error@),
            },
    {
        let ghost start = DataMapView::empty(key_type@, value_type@);
        let mut map = MemoryDataMap { entries: Vec::new(), key_type, value_type };
        assert(map@.entries =~= Map::empty());
        let mut i: usize = 0;
        proof {
            map.lemma_well_typed();
        }
        while i < entries.len()
            invariant
                0 <= i <= entries@.len(),
                start == DataMapView::empty(key_type@, value_type@),
                start.with_entries(entries@.take(i as int)) == Ok::<DataMapView, ErrorView>(map@),
                map@.well_typed(),
            decreases entries@.len() - i,
        {
            let ghost written = map@;
            assert(entries@.take(i + 1).drop_last() =~= entries@.take(i as int));
            assert(entries@.take(i + 1).last() == entries@[i as int]);
            match map.set_entry(entries[i].0.clone(), entries[i].1.clone()) {
                Ok(_) => {},
                Err(error) => {
                    proof {
                        assert(written.set_entry(entries@[i as int].0@, entries@[i as int].1@).1
                            == Err::<(), ErrorView>(error@));
                        assert(start.with_entries(entries@.take(i + 1)) == Err::<
                            DataMapView,
                            ErrorView,
                        >(error@));
                        lemma_with_entries_stops(start, entries@, i + 1);
                    }
                    return Err(error);
                },
            }
            i = i + 1;
        }
        assert(entries@.take(i as int) =~= entries@);
        Ok(map)
    }

    /// Where the entry for `key` stands, if there is one.
    fn position(&self, key: &Value) -> (r: Option<usize>)
        ensures
            match r {
                Some(i) => i < self.entries@.len() && self.entries@[i as int].0@ == key@,
                None => !has_key(self.entries@, key@),
            },
    {
        let mut i: usize = 0;
        while i < self.entries.len()
            invariant
                0 <= i <= self.entries@.len(),
                forall|j: int| 0 <= j < i ==> (#[trigger] self.entries@[j]).0@ != key@,
            decreases self.entries@.len() - i,
        {
            if self.entries[i].0 == *key {
                return Some(i);
            }
            i = i + 1;
        }
        None
    }

    /// Moves the entries out, leaving none behind, so that they can be changed and
    /// put back.
    fn take_entries(&mut self) -> (r: Vec<(Value, Value)>)
        ensures
            r == old(self).entries,
            final(self).entries@.len() == 0,
            final(self).key_type == old(self).key_type,
            final(self).value_type == old(self).value_type,
    {
        let mut entries: Vec<(Value, Value)> = Vec::new();
        std::mem::swap(&mut self.entries, &mut entries);
        entries
    }

    proof fn lemma_well_typed(&self)
        requires
            self.inv(),
        ensures
            self@.well_typed(),
    {
        assert forall|k: ValueView| #[trigger] self@.entries.contains_key(k) implies self@.key_type.admits(
            k,
        ) && self@.value_type.admits(self@.entries[k]) by {
            let i = choose|i: int| 0 <= i < self.entries@.len() && (#[trigger] self.entries@[i]).0@ == k;
            lemma_to_map_at(self.entries@, i);
        }
    }
}

impl DataMap for MemoryDataMap {
    fn fetch_entry(&self, key: &Value) -> (r: InterpreterResult<Value>) {
        proof {
            use_type_invariant(self);
            self.lemma_well_typed();
        }
        if !self.key_type.admits(key) {
            return Err(Error::TypeError(self.key_type.clone(), key.clone()));
        }
        match self.position(key) {
            Some(i) => {
                proof {
                    lemma_to_map_at(self.entries@, i as int);
                }
                Ok(self.entries[i].1.clone())
            },
            None => Ok(Value::Void),
        }
    }

    fn set_entry(&mut self, key: Value, value: Value) -> (r: InterpreterResult<()>) {
        proof {
            use_type_invariant(&*self);
            self.lemma_well_typed();
        }
        if !self.key_type.admits(&key) {
            return Err(Error::TypeError(self.key_type.clone(), key));
        }
        if !self.value_type.admits(&value) {
            return Err(Error::TypeError(self.value_type.clone(), value));
        }
        let found = self.position(&key);
        let mut entries = self.take_entries();
        match found {
            Some(i) => {
                proof {
                    lemma_to_map_update(entries@, i as int, (key, value));
                }
                entries.set(i, (key, value));
            },
            None => {
                proof {
                    lemma_to_map_push(entries@, (key, value));
                }
                entries.push((key, value));
            },
        }
        self.entries = entries;
        proof {
            self.lemma_well_typed();
        }
        Ok(())
    }

    fn insert_entry(&mut self, key: Value, value: Value) -> (r: InterpreterResult<Value>) {
        proof {
            use_type_invariant(&*self);
            self.lemma_well_typed();
        }
        if !self.key_type.admits(&key) {
            return Err(Error::TypeError(self.key_type.clone(), key));
        }
        if !self.value_type.admits(&value) {
            return Err(Error::TypeError(self.value_type.clone(), value));
        }
        match self.position(&key) {
            Some(i) => {
                proof {
                    lemma_to_map_at(self.entries@, i as int);
                }
                Ok(Value::Bool(false))
            },
            None => {
                let mut entries = self.take_entries();
                proof {
                    lemma_to_map_push(entries@, (key, value));
                }
                entries.push((key, value));
                self.entries = entries;
                proof {
                    self.lemma_well_typed();
                }
                Ok(Value::Bool(true))
            },
        }
    }

    fn delete_entry(&mut self, key: &Value) -> (r: InterpreterResult<Value>) {
        proof {
            use_type_invariant(&*self);
            self.lemma_well_typed();
        }
        if !self.key_type.admits(key) {
            return Err(Error::TypeError(self.key_type.clone(), key.clone()));
        }
        match self.position(key) {
            Some(i) => {
                let mut entries = self.take_entries();
                proof {
                    lemma_to_map_at(entries@, i as int);
                    lemma_to_map_remove(entries@, i as int);
                }
                entries.remove(i);
                self.entries = entries;
                proof {
                    self.lemma_well_typed();
                }
                Ok(Value::Bool(true))
            },
            None => Ok(Value::Bool(false)),
        }
    }
}

/// The typed maps of one contract, by name. The database owns its maps and lends
/// them out, to read or to write.
pub trait ContractDatabase: View<V = DatabaseView> {
    /// The kind of typed map that this database holds.
    type Map: DataMap;

    /// Lends the map called `map_name` for reading, if there is one.
    fn get_data_map(&self, map_name: &str) -> (r: Option<&Self::Map>)
        ensures
            match r {
                Some(map) => self@.get_map(map_name@) == Some(map@) && map@.well_typed(),
                None => self@.get_map(map_name@).is_none(),
            },
    ;

    /// Lends the map called `map_name` for writing, if there is one. What the
    /// borrower leaves in the map is what the database then holds under that name;
    /// nothing else changes.
    fn get_mut_data_map(&mut self, map_name: &str) -> (r: Option<&mut Self::Map>)
        ensures
            match r {
                Some(map) => {
                    &&& old(self)@.get_map(map_name@) == Some(map@)
                    &&& map@.well_typed()
                    &&& final(self)@ == old(self)@.with_map(map_name@, final(map)@)
                },
                None => {
                    &&& old(self)@.get_map(map_name@).is_none()
                    &&& final(self)@ == old(self)@
                },
            },
    ;

    /// Installs a new, empty map under `map_name`. A map that had this name is
    /// dropped with all its entries.
    fn create_map(
        &mut self,
        map_name: &str,
        key_type: TupleTypeSignature,
        value_type: TupleTypeSignature,
    )
        ensures
            final(self)@ == old(self)@.create_map(
                map_name@,
                key_type.signature(),
                value_type.signature(),
            ),
    ;
}

/// A database that keeps its maps in memory.
#[derive(Debug)]
pub struct MemoryContractDatabase {
    names: Vec<String>,
    maps: Vec<MemoryDataMap>,
}

/// Each name paired with the map at the same position.
pub open spec fn named_maps(names: Seq<String>, maps: Seq<MemoryDataMap>) -> Seq<
    (String, MemoryDataMap),
> {
    Seq::new(names.len(), |i: int| (names[i], maps[i]))
}

impl View for MemoryContractDatabase {
    type V = DatabaseView;

    closed spec fn view(&self) -> DatabaseView {
        DatabaseView { maps: to_map(named_maps(self.names@, self.maps@)) }
    }
}

impl MemoryContractDatabase {
    #[verifier::type_invariant]
    spec fn inv(&self) -> bool {
        &&& self.names@.len() == self.maps@.len()
        &&& distinct_keys(named_maps(self.names@, self.maps@))
    }

    /// A database with no map.
    pub fn new() -> (r: MemoryContractDatabase)
        ensures
            r@ == DatabaseView::empty(),
    {
        let r = MemoryContractDatabase { names: Vec::new(), maps: Vec::new() };
        assert(r@.maps =~= Map::empty());
        r
    }

    /// The names of the maps, each once, in no particular order.
    pub fn map_names(&self) -> (r: Vec<String>)
        ensures
            self@.listed_by(r@),
    {
        proof {
            use_type_invariant(self);
        }
        let mut copy: Vec<String> = Vec::new();
        let mut i: usize = 0;
        while i < self.names.len()
            invariant
                0 <= i <= self.names@.len(),
                copy@.len() == i,
                forall|j: int| 0 <= j < i ==> (#[trigger] copy@[j])@ == self.names@[j]@,
            decreases self.names@.len() - i,
        {
            copy.push(self.names[i].clone());
            i = i + 1;
        }
        proof {
            let pairs = named_maps(self.names@, self.maps@);
            assert forall|a: int, b: int| 0 <= a < b < copy@.len() implies (#[trigger] copy@[a])@ != (
            #[trigger] copy@[b])@ by {
                assert(pairs[a].0@ != pairs[b].0@);
            }
            assert forall|name: Seq<char>|
                self@.maps.contains_key(name) <==> exists|i: int|
                    0 <= i < copy@.len() && (#[trigger] copy@[i])@ == name by {
                if self@.maps.contains_key(name) {
                    let i = index_of(pairs, name);
                    assert(copy@[i]@ == name);
                }
                if exists|i: int| 0 <= i < copy@.len() && (#[trigger] copy@[i])@ == name {
                    let i = choose|i: int| 0 <= i < copy@.len() && (#[trigger] copy@[i])@ == name;
                    assert(pairs[i].0@ == name);
                }
            }
        }
        copy
    }

    /// Installs `map` under `map_name`, in place of any map of that name.
    pub fn install_map(&mut self, map_name: &str, map: MemoryDataMap)
        ensures
            final(self)@ == old(self)@.with_map(map_name@, map@),
    {
        proof {
            use_type_invariant(&*self);
        }
        let found = self.position(map_name);
        let mut taken = MemoryContractDatabase::new();
        std::mem::swap(self, &mut taken);
        let MemoryContractDatabase { names: mut names, maps: mut maps } = taken;
        let ghost before = named_maps(names@, maps@);
        match found {
            Some(i) => {
                proof {
                    lemma_to_map_update(before, i as int, (names@[i as int], map));
                }
                maps.set(i, map);
            },
            None => {
                let name = map_name.to_owned();
                proof {
                    lemma_to_map_push(before, (name, map));
                }
                names.push(name);
                maps.push(map);
            },
        }
        assert(named_maps(names@, maps@) =~= match found {
            Some(i) => before.update(i as int, (names@[i as int], map)),
            None => before.push((names@.last(), map)),
        });
        *self = MemoryContractDatabase { names, maps };
    }

    /// Where the map called `map_name` stands, if there is one.
    fn position(&self, map_name: &str) -> (r: Option<usize>)
        ensures
            match r {
                Some(i) => i < self.names@.len() && self.names@[i as int]@ == map_name@,
                None => forall|j: int|
                    0 <= j < self.names@.len() ==> (#[trigger] self.names@[j])@ != map_name@,
            },
    {
        let name = map_name.to_owned();
        let mut i: usize = 0;
        while i < self.names.len()
            invariant
                0 <= i <= self.names@.len(),
                name@ == map_name@,
                forall|j: int| 0 <= j < i ==> (#[trigger] self.names@[j])@ != map_name@,
            decreases self.names@.len() - i,
        {
            if self.names[i] == name {
                return Some(i);
            }
            i = i + 1;
        }
        None
    }
}

impl ContractDatabase for MemoryContractDatabase {
    type Map = MemoryDataMap;

    fn get_data_map(&self, map_name: &str) -> (r: Option<&MemoryDataMap>) {
        proof {
            use_type_invariant(self);
        }
        match self.position(map_name) {
            Some(i) => {
                let map = &self.maps[i];
                proof {
                    lemma_to_map_at(named_maps(self.names@, self.maps@), i as int);
                    use_type_invariant(map);
                    map.lemma_well_typed();
                }
                Some(map)
            },
            None => {
                proof {
                    lemma_to_map_absent(named_maps(self.names@, self.maps@), map_name@);
                }
                None
            },
        }
    }

    fn get_mut_data_map(&mut self, map_name: &str) -> (r: Option<&mut MemoryDataMap>) {
        proof {
            use_type_invariant(&*self);
        }
        match self.position(map_name) {
            Some(i) => {
                proof {
                    let names = self.names@;
                    let maps = self.maps@;
                    lemma_to_map_at(named_maps(names, maps), i as int);
                    assert forall|map: MemoryDataMap|
                        {
                            &&& distinct_keys(
                                named_maps(names, #[trigger] maps.update(i as int, map)),
                            )
                            &&& to_map(named_maps(names, maps.update(i as int, map))) == to_map(
                                named_maps(names, maps),
                            ).insert(map_name@, map@)
                        } by {
                        lemma_to_map_update(named_maps(names, maps), i as int, (names[i as int], map));
                        assert(named_maps(names, maps.update(i as int, map)) =~= named_maps(
                            names,
                            maps,
                        ).update(i as int, (names[i as int], map)));
                    }
                }
                let map = &mut self.maps[i];
                proof {
                    use_type_invariant(&*map);
                    map.lemma_well_typed();
                }
                Some(map)
            },
            None => {
                proof {
                    lemma_to_map_absent(named_maps(self.names@, self.maps@), map_name@);
                }
                None
            },
        }
    }

    fn create_map(
        &mut self,
        map_name: &str,
        key_type: TupleTypeSignature,
        value_type: TupleTypeSignature,
    ) {
        let new_map = MemoryDataMap::new(key_type, value_type);
        self.install_map(map_name, new_map);
    }
}

} // verus!
