//! One record of a table.

use vstd::prelude::*;

use crate::entrydata::type_of;
use crate::entryvalue::{EntryValue, ValueView};
use crate::errors::Error;
use crate::tabledata::{
    first_named, fits, initial_values, lemma_initial_values_fit, unnamed, ColumnView, TableData,
};

verus! {

/// One record of a table: one value for each column, in the order of the
/// columns. A record does not know its table; the functions that need the
/// schema take it as an argument.
#[derive(Debug, PartialEq)]
pub struct Entry {
    values: Vec<EntryValue>,
}

impl View for Entry {
    type V = Seq<ValueView>;

    closed spec fn view(&self) -> Seq<ValueView> {
        Seq::new(self.values@.len(), |i: int| self.values@[i]@)
    }
}

impl Clone for Entry {
    fn clone(&self) -> (r: Self)
        ensures
            r@ == self@,
    {
        let mut values: Vec<EntryValue> = Vec::new();
        let mut i: usize = 0;
        while i < self.values.len()
            invariant
                i <= self.values@.len(),
                values@.len() == i,
                forall|j: int| 0 <= j < i ==> values@[j]@ == self.values@[j]@,
            decreases self.values@.len() - i,
        {
            values.push(self.values[i].clone());
            i = i + 1;
        }
        let r = Entry { values };
        assert(r@ =~= self@);
        r
    }
}

/// What [`Entry::set_key`] returns and leaves behind, given the record
/// before the call.
pub open spec fn set_key_outcome(
    before: Seq<ValueView>,
    columns: Seq<ColumnView>,
    id: usize,
    value: ValueView,
) -> (Result<(), Error>, Seq<ValueView>) {
    if id >= before.len() {
        (Err(Error::OutOfBounds { index: id, len: before.len() as usize }), before)
    } else if id >= columns.len() {
        (Err(Error::OutOfBounds { index: id, len: columns.len() as usize }), before)
    } else if !columns[id as int].data.accepts(value) {
        (
            Err(
                Error::WrongColumnType {
                    column: id,
                    expected: columns[id as int].data.entrytype,
                    found: type_of(value),
                },
            ),
            before,
        )
    } else {
        (Ok(()), before.update(id as int, value))
    }
}

/// A record that fits its table still fits it after any call of
/// [`Entry::set_key`], whether the call succeeded or not.
pub proof fn lemma_set_key_keeps_fit(
    before: Seq<ValueView>,
    columns: Seq<ColumnView>,
    id: usize,
    value: ValueView,
)
    requires
        fits(columns, before),
    ensures
        fits(columns, set_key_outcome(before, columns, id, value).1),
{
    let after = set_key_outcome(before, columns, id, value).1;
    assert forall|i: int| 0 <= i < columns.len() implies (#[trigger] columns[i]).data.accepts(
        after[i],
    ) by {
        assert(columns[i].data.accepts(before[i]));
    }
}

impl Entry {
    /// The record that a table starts from: each column's default, or the
    /// zero value of its type where no default was set.
    pub fn new(table_data: &TableData) -> (r: Entry)
        ensures
            r@ == initial_values(table_data@),
            fits(table_data@, r@),
    {
        proof {
            use_type_invariant(table_data);
            lemma_initial_values_fit(table_data@);
        }
        let mut values: Vec<EntryValue> = Vec::new();
        let mut value_id: usize = 0;
        while value_id < table_data.len()
            invariant
                value_id <= table_data@.len(),
                values@.len() == value_id,
                forall|j: int| 0 <= j < value_id ==> values@[j]@ == table_data@[j].data.initial(),
            decreases table_data@.len() - value_id,
        {
            match table_data.get_entrydata(value_id) {
                Some(entrydata) => {
                    values.push(entrydata.get_default());
                },
                None => {},
            }
            value_id = value_id + 1;
        }
        let r = Entry { values };
        assert(r@ =~= initial_values(table_data@));
        r
    }

    /// The value at that index.
    pub fn get_key(&self, id: usize) -> (r: Result<EntryValue, Error>)
        ensures
            match r {
                Ok(v) => id < self@.len() && v@ == self@[id as int],
                Err(e) => id >= self@.len() && e == (Error::OutOfBounds {
                    index: id,
                    len: self@.len() as usize,
                }),
            },
    {
        if id < self.values.len() {
            Ok(self.values[id].clone())
        } else {
            Err(Error::OutOfBounds { index: id, len: self.values.len() })
        }
    }

    /// The value in the first column of that name.
    pub fn get_key_by_string(&self, tabledata: &TableData, str: String) -> (r: Result<
        EntryValue,
        Error,
    >)
        ensures
            unnamed(tabledata@, str@) ==> r == Err::<EntryValue, Error>(Error::UnknownColumn),
            forall|i: int|
                first_named(tabledata@, str@, i) ==> match r {
                    Ok(v) => i < self@.len() && v@ == self@[i],
                    Err(e) => i >= self@.len() && e == (Error::OutOfBounds {
                        index: i as usize,
                        len: self@.len() as usize,
                    }),
                },
    {
        match tabledata.string_to_id(str) {
            Some(id) => {
                proof {
                    lemma_first_named_unique(tabledata@, str@, id as int);
                }
                self.get_key(id)
            },
            None => Err(Error::UnknownColumn),
        }
    }

    /// Sets the value at that index. The index must be one of the record
    /// and of the table, and the value must have the type of the column;
    /// otherwise the record stays as it was.
    pub fn set_key(&mut self, tabledata: &TableData, id: usize, value: EntryValue) -> (r: Result<
        (),
        Error,
    >)
        ensures
            (r, final(self)@) == set_key_outcome(old(self)@, tabledata@, id, value@),
    {
        if id >= self.values.len() {
            return Err(Error::OutOfBounds { index: id, len: self.values.len() });
        }
        let entrydata = match tabledata.get_entrydata(id) {
            Some(entrydata) => entrydata,
            None => {
                return Err(Error::OutOfBounds { index: id, len: tabledata.len() });
            },
        };
        match entrydata.check(&value) {
            Ok(()) => {},
            Err(_) => {
                return Err(
                    Error::WrongColumnType {
                        column: id,
                        expected: entrydata.get_type(),
                        found: value.entrytype(),
                    },
                );
            },
        }
        let ghost before = self@;
        self.values[id] = value;
        assert(self@ =~= before.update(id as int, value@));
        Ok(())
    }

    /// Sets the value in the first column of that name, as
    /// [`Entry::set_key`] does for its index.
    pub fn set_key_by_string(
        &mut self,
        tabledata: &TableData,
        str: String,
        value: EntryValue,
    ) -> (r: Result<(), Error>)
        ensures
            unnamed(tabledata@, str@) ==> r == Err::<(), Error>(Error::UnknownColumn),
            unnamed(tabledata@, str@) ==> final(self)@ == old(self)@,
            forall|i: int|
                first_named(tabledata@, str@, i) ==> (r, final(self)@) == set_key_outcome(
                    old(self)@,
                    tabledata@,
                    i as usize,
                    value@,
                ),
    {
        match tabledata.string_to_id(str) {
            Some(id) => {
                proof {
                    lemma_first_named_unique(tabledata@, str@, id as int);
                }
                self.set_key(tabledata, id, value)
            },
            None => Err(Error::UnknownColumn),
        }
    }

    /// The number of values.
    pub fn len(&self) -> (n: usize)
        ensures
            n == self@.len(),
    {
        self.values.len()
    }
}

/// A name stands for one column at most, and for none where no column has
/// it.
pub proof fn lemma_first_named_unique(columns: Seq<ColumnView>, name: Seq<char>, i: int)
    requires
        first_named(columns, name, i),
    ensures
        !unnamed(columns, name),
        forall|k: int| first_named(columns, name, k) ==> k == i,
{
    assert(columns[i].name == name);
    assert forall|k: int| first_named(columns, name, k) implies k == i by {
        if k < i {
            assert(columns[k].name != name);
        } else if i < k {
            assert(columns[i].name != name);
        }
    }
}

} // verus!
