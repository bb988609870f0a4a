//! Building the schema of a game.

use std::sync::Arc;
use vstd::prelude::*;

use crate::tabledata::{ColumnView, TableData};
use crate::tabledatamap::TableDataMap;

verus! {

/// Builds the schema of a game, table by table.
#[must_use]
pub struct TableDataMapBuilder {
    table_data_map: TableDataMap,
}

impl View for TableDataMapBuilder {
    type V = Map<Seq<char>, Seq<ColumnView>>;

    closed spec fn view(&self) -> Map<Seq<char>, Seq<ColumnView>> {
        self.table_data_map@
    }
}

impl TableDataMapBuilder {
    /// Starts from a schema without tables.
    pub fn new() -> (r: Self)
        ensures
            r@ == Map::<Seq<char>, Seq<ColumnView>>::empty(),
    {
        TableDataMapBuilder { table_data_map: TableDataMap::new() }
    }

    /// Adds a table under that name, in place of the one that had the name
    /// if there was one.
    pub fn insert(self, id: String, tabledata: TableData) -> (r: Self)
        ensures
            r@ == self@.insert(id@, tabledata@),
    {
        let mut table_data_map = self.table_data_map;
        table_data_map.insert(id, tabledata);
        TableDataMapBuilder { table_data_map }
    }

    /// The schema that was built, ready to be shared.
    pub fn get(self) -> (r: Arc<TableDataMap>)
        ensures
            r@ == self@,
    {
        Arc::new(self.table_data_map)
    }
}

} // verus!
