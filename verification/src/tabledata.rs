//! The schema of one table: its columns, in order.

use vstd::prelude::*;

use crate::entry::Entry;
use crate::entrydata::{type_of, EntryData, EntryDataView};
use crate::entryvalue::ValueView;
use crate::errors::Error;

verus! {

/// One column of a table as a mathematical value: its name and description.
pub struct ColumnView {
    pub name: Seq<char>,
    pub data: EntryDataView,
}

/// Whether a record fits a table: it has one value for each column, and
/// each value has the type of its column.
pub open spec fn fits(columns: Seq<ColumnView>, values: Seq<ValueView>) -> bool {
    &&& values.len() == columns.len()
    &&& forall|i: int| 0 <= i < columns.len() ==> (#[trigger] columns[i]).data.accepts(values[i])
}

/// Whether `i` is the first column of that name.
pub open spec fn first_named(columns: Seq<ColumnView>, name: Seq<char>, i: int) -> bool {
    &&& 0 <= i < columns.len()
    &&& columns[i].name == name
    &&& forall|j: int| 0 <= j < i ==> (#[trigger] columns[j]).name != name
}

/// Whether no column has that name.
pub open spec fn unnamed(columns: Seq<ColumnView>, name: Seq<char>) -> bool {
    forall|j: int| 0 <= j < columns.len() ==> (#[trigger] columns[j]).name != name
}

/// The record that a table starts from: each column's default, or the zero
/// value of its type where no default was set.
pub open spec fn initial_values(columns: Seq<ColumnView>) -> Seq<ValueView> {
    Seq::new(columns.len(), |i: int| columns[i].data.initial())
}

/// Every column's default, where it has one, has the column's type.
pub open spec fn columns_wf(columns: Seq<ColumnView>) -> bool {
    forall|i: int| 0 <= i < columns.len() ==> (#[trigger] columns[i]).data.wf()
}

/// The record that a table starts from fits the table.
pub proof fn lemma_initial_values_fit(columns: Seq<ColumnView>)
    requires
        columns_wf(columns),
    ensures
        fits(columns, initial_values(columns)),
{
    assert forall|i: int| 0 <= i < columns.len() implies (#[trigger] columns[i]).data.accepts(
        initial_values(columns)[i],
    ) by {
        assert(columns[i].data.wf());
    }
}

/// The schema of one table: an ordered list of named columns. Columns are
/// only ever added, at the end, so the index of a column never changes.
/// Names need not differ; a name stands for the first column that has it.
pub struct TableData {
    strings: Vec<String>,
    entrydatas: Vec<EntryData>,
}

impl View for TableData {
    type V = Seq<ColumnView>;

    closed spec fn view(&self) -> Seq<ColumnView> {
        Seq::new(
            self.strings@.len(),
            |i: int| ColumnView { name: self.strings@[i]@, data: self.entrydatas@[i]@ },
        )
    }
}

impl Default for TableData {
    fn default() -> (r: TableData)
        ensures
            r@ == Seq::<ColumnView>::empty(),
    {
        TableData::new()
    }
}

impl TableData {
    /// Holds of every schema: each column has a name and a description,
    /// and each default has the type of its column.
    #[verifier::type_invariant]
    pub open spec fn inv(self) -> bool {
        &&& self.well_paired()
        &&& columns_wf(self@)
    }

    /// There are as many names as descriptions.
    pub closed spec fn well_paired(self) -> bool {
        self.strings@.len() == self.entrydatas@.len()
    }

    /// A table without columns.
    pub fn new() -> (r: TableData)
        ensures
            r@ == Seq::<ColumnView>::empty(),
    {
        let r = TableData { strings: Vec::new(), entrydatas: Vec::new() };
        assert(r@ =~= Seq::<ColumnView>::empty());
        r
    }

    /// The number of columns.
    pub fn len(&self) -> (n: usize)
        ensures
            n == self@.len(),
    {
        self.strings.len()
    }

    /// Adds a column at the end. Its index is the number of columns that
    /// the table had.
    pub fn add_data(&mut self, str: String, entrydata: EntryData)
        ensures
            final(self)@ == old(self)@.push(ColumnView { name: str@, data: entrydata@ }),
    {
        proof {
            use_type_invariant(&*self);
            use_type_invariant(&entrydata);
        }
        let ghost before = self@;
        let mut taken = TableData::new();
        std::mem::swap(self, &mut taken);
        let TableData { mut strings, mut entrydatas } = taken;
        strings.push(str);
        entrydatas.push(entrydata);
        proof {
            let next = TableData { strings, entrydatas };
            assert(next@ =~= before.push(ColumnView { name: str@, data: entrydata@ }));
            assert forall|i: int| 0 <= i < next@.len() implies (#[trigger] next@[i]).data.wf() by {
                if i < before.len() {
                    assert(before[i].data.wf());
                }
            }
        }
        *self = TableData { strings, entrydatas };
    }

    /// The index of the first column of that name, if there is one.
    pub fn string_to_id(&self, str: String) -> (r: Option<usize>)
        ensures
            match r {
                Some(i) => first_named(self@, str@, i as int),
                None => unnamed(self@, str@),
            },
    {
        let mut id: usize = 0;
        while id < self.strings.len()
            invariant
                id <= self.strings@.len(),
                self@.len() == self.strings@.len(),
                forall|j: int| 0 <= j < id ==> (#[trigger] self@[j]).name != str@,
            decreases self.strings@.len() - id,
        {
            if self.strings[id] == str {
                return Some(id);
            }
            id = id + 1;
        }
        None
    }

    /// The name of the column at that index, if there is one.
    pub fn id_to_string(&self, id: usize) -> (r: Option<String>)
        ensures
            match r {
                Some(s) => id < self@.len() && s@ == self@[id as int].name,
                None => id >= self@.len(),
            },
    {
        if id < self.strings.len() {
            Some(self.strings[id].clone())
        } else {
            None
        }
    }

    /// The description of the column at that index, if there is one.
    pub fn get_entrydata(&self, id: usize) -> (r: Option<&EntryData>)
        ensures
            match r {
                Some(d) => id < self@.len() && d@ == self@[id as int].data,
                None => id >= self@.len(),
            },
    {
        proof {
            use_type_invariant(self);
        }
        if id < self.entrydatas.len() {
            Some(&self.entrydatas[id])
        } else {
            None
        }
    }

    /// Tells whether a record fits this table. A record of another length
    /// is refused as such; otherwise the first value that does not have
    /// the type of its column is reported, with its index.
    pub fn check(&self, entry: &Entry) -> (r: Result<(), Error>)
        ensures
            r == check_result(self@, entry@),
            r is Ok <==> fits(self@, entry@),
    {
        if entry.len() != self.len() {
            return Err(Error::WrongLength { columns: self.len(), values: entry.len() });
        }
        let mut key: usize = 0;
        while key < entry.len()
            invariant
                key <= entry@.len(),
                entry@.len() == self@.len(),
                forall|j: int| 0 <= j < key ==> (#[trigger] self@[j]).data.accepts(entry@[j]),
            decreases entry@.len() - key,
        {
            let value = match entry.get_key(key) {
                Ok(value) => value,
                Err(e) => { return Err(e); },
            };
            let entry_data = match self.get_entrydata(key) {
                Some(entry_data) => entry_data,
                None => { return Err(Error::OutOfBounds { index: key, len: self.len() }); },
            };
            match entry_data.check(&value) {
                Ok(()) => {},
                Err(_) => {
                    proof {
                        assert(first_misfit(self@, entry@, key as int));
                        lemma_first_misfit_unique(self@, entry@, key as int);
                        let i = choose|i: int| first_misfit(self@, entry@, i);
                        assert(i == key);
                    }
                    return Err(
                        Error::WrongColumnType {
                            column: key,
                            expected: entry_data.get_type(),
                            found: value.entrytype(),
                        },
                    );
                },
            }
            key = key + 1;
        }
        Ok(())
    }
}

/// Whether `i` is the first index at which a record of the right length
/// has a value of another type than the column's.
pub open spec fn first_misfit(columns: Seq<ColumnView>, values: Seq<ValueView>, i: int) -> bool {
    &&& 0 <= i < columns.len()
    &&& !columns[i].data.accepts(values[i])
    &&& forall|j: int| 0 <= j < i ==> (#[trigger] columns[j]).data.accepts(values[j])
}

/// What checking a record against a table gives: nothing to report, the
/// two lengths where they differ, or the first value of another type than
/// its column's.
pub open spec fn check_result(columns: Seq<ColumnView>, values: Seq<ValueView>) -> Result<
    (),
    Error,
> {
    if values.len() != columns.len() {
        Err(Error::WrongLength { columns: columns.len() as usize, values: values.len() as usize })
    } else if fits(columns, values) {
        Ok(())
    } else {
        let i = choose|i: int| first_misfit(columns, values, i);
        Err(
            Error::WrongColumnType {
                column: i as usize,
                expected: columns[i].data.entrytype,
                found: type_of(values[i]),
            },
        )
    }
}

/// A record has one first misfit at most, and none where it fits.
pub proof fn lemma_first_misfit_unique(columns: Seq<ColumnView>, values: Seq<ValueView>, i: int)
    requires
        first_misfit(columns, values, i),
    ensures
        !fits(columns, values),
        forall|k: int| first_misfit(columns, values, k) ==> k == i,
{
    assert(!columns[i].data.accepts(values[i]));
    assert forall|k: int| first_misfit(columns, values, k) implies k == i by {
        if k < i {
            assert(columns[k].data.accepts(values[k]));
        } else if i < k {
            assert(columns[i].data.accepts(values[i]));
        }
    }
}

} // verus!
