//! What a mod can be asked, and what can be asked of a mod that can be
//! written.

use std::sync::Arc;
use vstd::prelude::*;

use crate::entry::Entry;
use crate::entryvalue::ValueView;
use crate::errors::Error;
use crate::id::{IdView, ID};
use crate::idset::IdSet;
use crate::metadata::Metadata;
use crate::tabledata::ColumnView;
use crate::tabledatamap::TableDataMap;

verus! {

/// What a mod says when asked for a record: the record, that it has none,
/// or why it cannot say.
pub type Found = Result<Option<Seq<ValueView>>, Error>;

/// The answer of [`ModRead::get_entry`] as a mathematical value.
pub open spec fn found_view(r: Result<Option<&Entry>, Error>) -> Found {
    match r {
        Ok(Some(e)) => Ok(Some(e@)),
        Ok(None) => Ok(None),
        Err(e) => Err(e),
    }
}

/// Whether a list of identifiers holds the given one.
pub open spec fn lists(ids: Seq<ID>, id: IdView) -> bool {
    exists|i: int| 0 <= i < ids.len() && (#[trigger] ids[i])@ == id
}

/// Whether a list of names holds the given one.
pub open spec fn names(tables: Seq<String>, table: Seq<char>) -> bool {
    exists|i: int| 0 <= i < tables.len() && (#[trigger] tables[i])@ == table
}

/// A mod: records that it adds to the tables of a game or puts in place of
/// the game's own, and marks on the records that it removes.
///
/// For each table and identifier a mod holds a record, or a mark that the
/// record is removed, or nothing. What it answers depends on that state
/// alone: `removal` and `lookup` say what, and the functions that ask
/// return just that. A kind of mod states the four specification
/// functions for itself; where it leaves one unstated, nothing is known
/// of it.
pub trait ModRead {
    /// What the mod says of itself.
    open spec fn metadata(&self) -> Metadata {
        arbitrary()
    }

    /// The schema of the game that the mod is for.
    open spec fn schema(&self) -> Map<Seq<char>, Seq<ColumnView>> {
        arbitrary()
    }

    /// What the mod answers when asked whether it removes the record.
    open spec fn removal(&self, table: Seq<char>, id: IdView) -> Result<bool, Error> {
        arbitrary()
    }

    /// What the mod answers when asked for its own version of the record.
    open spec fn lookup(&self, table: Seq<char>, id: IdView) -> Found {
        arbitrary()
    }

    /// What the mod says of itself.
    fn get_metadata(&self) -> (r: &Metadata)
        ensures
            *r == self.metadata(),
    ;

    /// The schema of the game that the mod is for.
    fn get_tabledatamap(&self) -> (r: Arc<TableDataMap>)
        ensures
            r@ == self.schema(),
    ;

    /// The tables in which the mod has ever held a record. A table in
    /// which it holds one now is among them.
    fn get_modified_table_list(&self) -> (r: Vec<String>)
        ensures
            forall|table: Seq<char>, id: IdView|
                (#[trigger] self.lookup(table, id)) matches Ok(Some(_)) ==> names(r@, table),
    ;

    /// The identifiers of the records that the mod holds in the table.
    fn get_modified_entry_list(&self, table: &str) -> (r: Result<Vec<ID>, Error>)
        ensures
            r matches Ok(ids) ==> forall|id: IdView|
                lists(ids@, id) <==> (#[trigger] self.lookup(table@, id)) matches Ok(Some(_)),
    ;

    /// The mod's own version of the record, if it holds one.
    fn get_entry(&self, table: &str, id: &ID) -> (r: Result<Option<&Entry>, Error>)
        ensures
            found_view(r) == self.lookup(table@, id@),
    ;

    /// Tells whether the mod removes the record.
    fn is_removed(&self, table: &str, id: &ID) -> (r: Result<bool, Error>)
        ensures
            r == self.removal(table@, id@),
    ;

    /// The identifiers of the records that the mod removes from the table.
    fn list_removed(&self, table: &str) -> (r: Result<IdSet, Error>)
        ensures
            r matches Ok(ids) ==> forall|id: IdView|
                ids@.contains(id) <==> (#[trigger] self.removal(table@, id)) == Ok::<bool, Error>(
                    true,
                ),
    ;
}

/// A shared mod is read as the mod itself is. This lets one mod stand in
/// several stacks at once.
impl<M: ModRead> ModRead for Arc<M> {
    open spec fn metadata(&self) -> Metadata {
        (**self).metadata()
    }

    open spec fn schema(&self) -> Map<Seq<char>, Seq<ColumnView>> {
        (**self).schema()
    }

    open spec fn removal(&self, table: Seq<char>, id: IdView) -> Result<bool, Error> {
        (**self).removal(table, id)
    }

    open spec fn lookup(&self, table: Seq<char>, id: IdView) -> Found {
        (**self).lookup(table, id)
    }

    fn get_metadata(&self) -> (r: &Metadata) {
        (**self).get_metadata()
    }

    fn get_tabledatamap(&self) -> (r: Arc<TableDataMap>) {
        (**self).get_tabledatamap()
    }

    fn get_modified_table_list(&self) -> (r: Vec<String>) {
        (**self).get_modified_table_list()
    }

    /// What the mod itself lists, or the failure with which it fails.
    fn get_modified_entry_list(&self, table: &str) -> (r: Result<Vec<ID>, Error>)
        ensures
            call_ensures(M::get_modified_entry_list, (&**self, table), r),
    {
        (**self).get_modified_entry_list(table)
    }

    fn get_entry(&self, table: &str, id: &ID) -> (r: Result<Option<&Entry>, Error>) {
        (**self).get_entry(table, id)
    }

    fn is_removed(&self, table: &str, id: &ID) -> (r: Result<bool, Error>) {
        (**self).is_removed(table, id)
    }

    /// What the mod itself lists, or the failure with which it fails.
    fn list_removed(&self, table: &str) -> (r: Result<IdSet, Error>)
        ensures
            call_ensures(M::list_removed, (&**self, table), r),
    {
        (**self).list_removed(table)
    }
}

/// Whether two states of a mod answer alike for every table and
/// identifier but, at most, the given ones.
pub open spec fn same_elsewhere<M: ModRead + ?Sized>(
    before: &M,
    after: &M,
    table: Seq<char>,
    id: IdView,
) -> bool {
    forall|t: Seq<char>, i: IdView|
        !(t == table && i == id) ==> {
            &&& (#[trigger] after.lookup(t, i)) == before.lookup(t, i)
            &&& (#[trigger] after.removal(t, i)) == before.removal(t, i)
        }
}

/// Whether two states of a mod answer alike for every table and
/// identifier.
pub open spec fn same_answers<M: ModRead + ?Sized>(before: &M, after: &M) -> bool {
    forall|t: Seq<char>, i: IdView|
        {
            &&& (#[trigger] after.lookup(t, i)) == before.lookup(t, i)
            &&& (#[trigger] after.removal(t, i)) == before.removal(t, i)
        }
}

/// What a write leaves as it was, whether it succeeds or fails: what the
/// mod says of itself, its schema, and its answers for every table and
/// identifier but the given ones. A write that fails leaves those
/// answers too.
pub open spec fn kept<M: ModRead + ?Sized>(
    before: &M,
    after: &M,
    table: Seq<char>,
    id: IdView,
    r: Result<(), Error>,
) -> bool {
    &&& after.metadata() == before.metadata()
    &&& after.schema() == before.schema()
    &&& same_elsewhere(before, after, table, id)
    &&& r is Err ==> same_answers(before, after)
}

/// What inserting a record does to a mod: once it has succeeded, the mod
/// holds that record under the table and identifier, and does not remove
/// it.
pub open spec fn inserted<M: ModRead + ?Sized>(
    before: &M,
    after: &M,
    table: Seq<char>,
    id: IdView,
    values: Seq<ValueView>,
    r: Result<(), Error>,
) -> bool {
    &&& kept(before, after, table, id, r)
    &&& r is Ok ==> after.lookup(table, id) == Ok::<Option<Seq<ValueView>>, Error>(Some(values))
    &&& r is Ok ==> after.removal(table, id) == Ok::<bool, Error>(false)
}

/// What removing a record does to a mod: once it has succeeded, the mod
/// removes the record of that table and identifier, and holds none of its
/// own there.
pub open spec fn removed<M: ModRead + ?Sized>(
    before: &M,
    after: &M,
    table: Seq<char>,
    id: IdView,
    r: Result<(), Error>,
) -> bool {
    &&& kept(before, after, table, id, r)
    &&& r is Ok ==> after.lookup(table, id) == Ok::<Option<Seq<ValueView>>, Error>(None)
    &&& r is Ok ==> after.removal(table, id) == Ok::<bool, Error>(true)
}

/// What restoring a record does to a mod: once it has succeeded, the mod
/// no longer removes the record of that table and identifier. Its own
/// record there, or that it has none, stays.
pub open spec fn restored<M: ModRead + ?Sized>(
    before: &M,
    after: &M,
    table: Seq<char>,
    id: IdView,
    r: Result<(), Error>,
) -> bool {
    &&& kept(before, after, table, id, r)
    &&& after.lookup(table, id) == before.lookup(table, id)
    &&& r is Ok ==> after.removal(table, id) == Ok::<bool, Error>(false)
}

/// A mod that can be written.
///
/// A write changes what the mod holds for one table and identifier, and
/// nothing else. One that fails changes nothing.
pub trait ModWrite: ModRead {
    /// Puts a record under the identifier, in place of the one that was
    /// there or of the mark that it was removed.
    fn insert(&mut self, table: String, id: ID, value: Entry) -> (r: Result<(), Error>)
        ensures
            inserted(old(self), final(self), table@, id@, value@, r),
    ;

    /// Marks the record as removed, and drops the mod's own version of
    /// it. Removing what is removed already changes nothing.
    fn remove(&mut self, table: String, id: ID) -> (r: Result<(), Error>)
        ensures
            removed(old(self), final(self), table@, id@, r),
    ;

    /// Takes back the mark that the record is removed. The mod's own
    /// version of it, once dropped, does not come back.
    fn restore(&mut self, table: &str, id: &ID) -> (r: Result<(), Error>)
        ensures
            restored(old(self), final(self), table@, id@, r),
    ;
}

} // verus!
