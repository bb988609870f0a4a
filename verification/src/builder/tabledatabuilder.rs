//! Building the schema of a table.

use vstd::prelude::*;

use crate::entrydata::EntryData;
use crate::tabledata::{ColumnView, TableData};

verus! {

/// Builds the schema of a table, column by column.
#[must_use]
pub struct TableDataBuilder {
    table_data: TableData,
}

impl View for TableDataBuilder {
    type V = Seq<ColumnView>;

    closed spec fn view(&self) -> Seq<ColumnView> {
        self.table_data@
    }
}

impl TableDataBuilder {
    /// Starts from a table without columns.
    pub fn new() -> (r: Self)
        ensures
            r@ == Seq::<ColumnView>::empty(),
    {
        TableDataBuilder { table_data: TableData::new() }
    }

    /// Adds a column at the end.
    pub fn add_data(self, str: String, entrydata: EntryData) -> (r: Self)
        ensures
            r@ == self@.push(ColumnView { name: str@, data: entrydata@ }),
    {
        let mut table_data = self.table_data;
        table_data.add_data(str, entrydata);
        TableDataBuilder { table_data }
    }

    /// The schema that was built.
    pub fn get(self) -> (r: TableData)
        ensures
            r@ == self@,
    {
        self.table_data
    }
}

} // verus!
