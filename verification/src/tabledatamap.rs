//! The schema of a game: its tables, by name.

use vstd::hash_map::StringHashMap;
use vstd::prelude::*;

use crate::tabledata::{ColumnView, TableData};

verus! {

/// The schema of a game: the schema of each of its tables, by the table's
/// name. It is built once and then shared, unchanged, by every mod of the
/// game.
pub struct TableDataMap {
    map: StringHashMap<TableData>,
}

impl View for TableDataMap {
    type V = Map<Seq<char>, Seq<ColumnView>>;

    closed spec fn view(&self) -> Map<Seq<char>, Seq<ColumnView>> {
        self.map@.map_values(|t: TableData| t@)
    }
}

impl Default for TableDataMap {
    fn default() -> (r: TableDataMap)
        ensures
            r@ == Map::<Seq<char>, Seq<ColumnView>>::empty(),
    {
        TableDataMap::new()
    }
}

impl TableDataMap {
    /// A schema without tables.
    pub fn new() -> (r: TableDataMap)
        ensures
            r@ == Map::<Seq<char>, Seq<ColumnView>>::empty(),
    {
        let r = TableDataMap { map: StringHashMap::new() };
        assert(r@ =~= Map::<Seq<char>, Seq<ColumnView>>::empty());
        r
    }

    /// Adds a table under that name, in place of the one that had the name
    /// if there was one.
    pub fn insert(&mut self, id: String, tabledata: TableData)
        ensures
            final(self)@ == old(self)@.insert(id@, tabledata@),
    {
        let ghost before = self@;
        self.map.insert(id, tabledata);
        assert(self@ =~= before.insert(id@, tabledata@));
    }

    /// Tells whether the schema has a table of that name.
    pub fn contains_key(&self, id: &str) -> (r: bool)
        ensures
            r == self@.contains_key(id@),
    {
        self.map.contains_key(id)
    }

    /// The schema of the table of that name, if there is one.
    pub fn get(&self, id: &str) -> (r: Option<&TableData>)
        ensures
            match r {
                Some(t) => self@.contains_key(id@) && t@ == self@[id@],
                None => !self@.contains_key(id@),
            },
    {
        self.map.get(id)
    }
}

impl std::ops::Index<String> for TableDataMap {
    type Output = TableData;

    /// The schema of the table of that name, which the schema must have.
    fn index(&self, key: String) -> (r: &TableData)
        ensures
            r@ == self@[key@],
    {
        match self.map.get(key.as_str()) {
            Some(t) => t,
            None => vstd::pervasive::unreached(),
        }
    }
}

impl vstd::std_specs::core::IndexSpecImpl<String> for TableDataMap {
    /// Indexing is for the names of tables that the schema has.
    open spec fn index_req(&self, index: &String) -> bool {
        self@.contains_key(index@)
    }
}

} // verus!
