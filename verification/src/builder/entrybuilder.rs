//! Building a record.

use vstd::prelude::*;

use crate::entry::{set_key_outcome, Entry};
use crate::entryvalue::{EntryValue, ValueView};
use crate::errors::Error;
use crate::tabledata::{first_named, initial_values, unnamed, ColumnView, TableData};

verus! {

/// Builds a record of a table, value by value. Once a step has failed,
/// the steps after it do nothing, and the end reports that first failure.
#[must_use]
pub enum EntryBuilder<'a> {
    Entry(Entry, &'a TableData),
    Broken(Error),
}

/// What setting the value at an index makes of a record that is being
/// built.
pub open spec fn after_set_key(
    built: Result<Seq<ValueView>, Error>,
    columns: Seq<ColumnView>,
    id: usize,
    value: ValueView,
) -> Result<Seq<ValueView>, Error> {
    match built {
        Err(e) => Err(e),
        Ok(values) => match set_key_outcome(values, columns, id, value).0 {
            Ok(()) => Ok(set_key_outcome(values, columns, id, value).1),
            Err(e) => Err(e),
        },
    }
}

impl<'a> EntryBuilder<'a> {
    /// The record as built so far, or the first failure.
    pub open spec fn built(self) -> Result<Seq<ValueView>, Error> {
        match self {
            EntryBuilder::Entry(entry, _) => Ok(entry@),
            EntryBuilder::Broken(e) => Err(e),
        }
    }

    /// The schema that the record is built for.
    pub open spec fn columns(self) -> Seq<ColumnView> {
        match self {
            EntryBuilder::Entry(_, tabledata) => tabledata@,
            EntryBuilder::Broken(_) => Seq::empty(),
        }
    }

    /// Starts from the record that the table starts from.
    pub fn new(tabledata: &'a TableData) -> (r: Self)
        ensures
            r.built() == Ok::<Seq<ValueView>, Error>(initial_values(tabledata@)),
            r.columns() == tabledata@,
    {
        EntryBuilder::Entry(Entry::new(tabledata), tabledata)
    }

    /// Sets the value at that index, as [`Entry::set_key`] does.
    pub fn set_key(self, id: usize, value: EntryValue) -> (r: Self)
        ensures
            r.built() == after_set_key(self.built(), self.columns(), id, value@),
            r.built() is Ok ==> r.columns() == self.columns(),
    {
        match self {
            EntryBuilder::Entry(mut entry, tabledata) => {
                match entry.set_key(tabledata, id, value) {
                    Err(err) => EntryBuilder::Broken(err),
                    Ok(()) => EntryBuilder::Entry(entry, tabledata),
                }
            },
            EntryBuilder::Broken(err) => EntryBuilder::Broken(err),
        }
    }

    /// Sets the value in the first column of that name, as
    /// [`Entry::set_key_by_string`] does.
    pub fn set_key_by_string(self, id: String, value: EntryValue) -> (r: Self)
        ensures
            self.built() matches Err(e) ==> r.built() == Err::<Seq<ValueView>, Error>(e),
            self.built() is Ok && unnamed(self.columns(), id@) ==> r.built() == Err::<
                Seq<ValueView>,
                Error,
            >(Error::UnknownColumn),
            forall|i: int|
                self.built() is Ok && first_named(self.columns(), id@, i) ==> r.built()
                    == after_set_key(self.built(), self.columns(), i as usize, value@),
            r.built() is Ok ==> r.columns() == self.columns(),
    {
        match self {
            EntryBuilder::Entry(mut entry, tabledata) => {
                match entry.set_key_by_string(tabledata, id, value) {
                    Err(err) => EntryBuilder::Broken(err),
                    Ok(()) => EntryBuilder::Entry(entry, tabledata),
                }
            },
            EntryBuilder::Broken(err) => EntryBuilder::Broken(err),
        }
    }

    /// The record that was built, or the first failure.
    pub fn get(self) -> (r: Result<Entry, Error>)
        ensures
            match r {
                Ok(entry) => self.built() == Ok::<Seq<ValueView>, Error>(entry@),
                Err(e) => self.built() == Err::<Seq<ValueView>, Error>(e),
            },
    {
        match self {
            EntryBuilder::Entry(entry, _) => Ok(entry),
            EntryBuilder::Broken(err) => Err(err),
        }
    }

    /// The record that was built, where no step failed.
    pub fn unwrap(self) -> (r: Entry)
        requires
            self.built() is Ok,
        ensures
            self.built() == Ok::<Seq<ValueView>, Error>(r@),
    {
        match self {
            EntryBuilder::Entry(entry, _) => entry,
            EntryBuilder::Broken(_) => vstd::pervasive::unreached(),
        }
    }
}

} // verus!
