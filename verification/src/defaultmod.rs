//! A mod that keeps its records and marks in memory.

use std::sync::Arc;
use vstd::prelude::*;

use crate::entry::Entry;
use crate::entryvalue::ValueView;
use crate::errors::Error;
use crate::id::{IdView, ID};
use crate::idset::IdSet;
use crate::marks::{find_marks, lemma_marks_at, mark, marks_wf, removed_of, unmark, RemovedTable};
use crate::metadata::Metadata;
use crate::mods::{found_view, lists, names, Found, ModRead, ModWrite};
use crate::records::{
    drop_record, find_table, lemma_table_at, modified_of, put_record, table_at, tables_wf,
    EntryTable,
};
use crate::tabledata::{check_result, fits, ColumnView};
use crate::tabledatamap::TableDataMap;

verus! {

/// The records of one table as a mathematical value.
pub type Records = Map<IdView, Seq<ValueView>>;

/// The records of every table as a mathematical value.
pub type Modified = Map<Seq<char>, Records>;

/// The marks of every table as a mathematical value: the pairs of a table
/// and an identifier that are marked.
pub type Removed = Set<(Seq<char>, IdView)>;

/// The records of a table, or none where there is no such table.
pub open spec fn records_in(modified: Modified, table: Seq<char>) -> Records {
    if modified.contains_key(table) {
        modified[table]
    } else {
        Records::empty()
    }
}

/// The records of every table but for the one of that table and
/// identifier.
pub open spec fn without(modified: Modified, table: Seq<char>, id: IdView) -> Modified {
    if modified.contains_key(table) {
        modified.insert(table, modified[table].remove(id))
    } else {
        modified
    }
}

/// The records of every table with that one, under that table and
/// identifier.
pub open spec fn with(
    modified: Modified,
    table: Seq<char>,
    id: IdView,
    values: Seq<ValueView>,
) -> Modified {
    modified.insert(table, records_in(modified, table).insert(id, values))
}

/// What [`DefaultMod::insert`] returns: the table must be one of the
/// schema, and the record must fit it.
pub open spec fn insert_result(
    schema: Map<Seq<char>, Seq<ColumnView>>,
    table: Seq<char>,
    values: Seq<ValueView>,
) -> Result<(), Error> {
    if !schema.contains_key(table) {
        Err(Error::UnknownTable)
    } else {
        check_result(schema[table], values)
    }
}

/// The record under that table and identifier, if there is one.
pub open spec fn record_in(modified: Modified, table: Seq<char>, id: IdView) -> Option<
    Seq<ValueView>,
> {
    if modified.contains_key(table) && modified[table].contains_key(id) {
        Some(modified[table][id])
    } else {
        None
    }
}

/// No record is held and marked at once, every table that holds records
/// is one of the schema, and every record fits its table.
pub open spec fn consistent(
    modified: Modified,
    removed: Removed,
    schema: Map<Seq<char>, Seq<ColumnView>>,
) -> bool {
    &&& forall|table: Seq<char>, id: IdView| #[trigger]
        removed.contains((table, id)) ==> record_in(modified, table, id) is None
    &&& forall|table: Seq<char>| #[trigger]
        modified.contains_key(table) ==> schema.contains_key(table)
    &&& forall|table: Seq<char>, id: IdView|
        (#[trigger] record_in(modified, table, id)) matches Some(values) ==> fits(
            schema[table],
            values,
        )
}

/// With fewer marks, what was consistent stays so.
pub proof fn lemma_fewer_marks(
    modified: Modified,
    removed: Removed,
    fewer: Removed,
    schema: Map<Seq<char>, Seq<ColumnView>>,
)
    requires
        consistent(modified, removed, schema),
        fewer.subset_of(removed),
    ensures
        consistent(modified, fewer, schema),
{
    assert forall|table: Seq<char>, id: IdView| #[trigger]
        fewer.contains((table, id)) implies record_in(modified, table, id) is None by {
        assert(removed.contains((table, id)));
    }
}

/// Without records, any marks are consistent.
pub proof fn lemma_no_records(removed: Removed, schema: Map<Seq<char>, Seq<ColumnView>>)
    ensures
        consistent(Modified::empty(), removed, schema),
{
}

/// A record that fits its table, put in place of whatever was there,
/// mark or record, leaves what was consistent so.
pub proof fn lemma_insert_consistent(
    modified: Modified,
    removed: Removed,
    schema: Map<Seq<char>, Seq<ColumnView>>,
    table: Seq<char>,
    id: IdView,
    values: Seq<ValueView>,
)
    requires
        consistent(modified, removed, schema),
        schema.contains_key(table),
        fits(schema[table], values),
    ensures
        consistent(with(modified, table, id, values), removed.remove((table, id)), schema),
{
    let after = with(modified, table, id, values);
    let fewer = removed.remove((table, id));
    assert forall|t: Seq<char>, i: IdView| #[trigger]
        fewer.contains((t, i)) implies record_in(after, t, i) is None by {
        assert(removed.contains((t, i)));
        assert(record_in(modified, t, i) is None);
    }
    assert forall|t: Seq<char>| #[trigger] after.contains_key(t) implies schema.contains_key(t) by {
        if t != table {
            assert(modified.contains_key(t));
        }
    }
    assert forall|t: Seq<char>, i: IdView|
        (#[trigger] record_in(after, t, i)) is Some implies fits(
        schema[t],
        record_in(after, t, i)->Some_0,
    ) by {
        if !(t == table && i == id) {
            assert(record_in(modified, t, i) == record_in(after, t, i));
        }
    }
}

/// A mark put in place of whatever was there, record or nothing, leaves
/// what was consistent so.
pub proof fn lemma_remove_consistent(
    modified: Modified,
    removed: Removed,
    schema: Map<Seq<char>, Seq<ColumnView>>,
    table: Seq<char>,
    id: IdView,
)
    requires
        consistent(modified, removed, schema),
    ensures
        consistent(without(modified, table, id), removed.insert((table, id)), schema),
{
    let after = without(modified, table, id);
    let more = removed.insert((table, id));
    assert forall|t: Seq<char>, i: IdView| #[trigger]
        more.contains((t, i)) implies record_in(after, t, i) is None by {
        if !(t == table && i == id) {
            assert(removed.contains((t, i)));
            assert(record_in(modified, t, i) is None);
        }
    }
    assert forall|t: Seq<char>| #[trigger] after.contains_key(t) implies schema.contains_key(t) by {
        assert(modified.contains_key(t));
    }
    assert forall|t: Seq<char>, i: IdView|
        (#[trigger] record_in(after, t, i)) is Some implies fits(
        schema[t],
        record_in(after, t, i)->Some_0,
    ) by {
        assert(record_in(modified, t, i) == record_in(after, t, i));
    }
}

/// A mod that keeps its records and marks in memory.
///
/// For each table and identifier it holds a record, or a mark that the
/// record is removed, or nothing; never a record and a mark. Every record
/// that it holds fits its table.
pub struct DefaultMod {
    metadata: Metadata,
    tabledatamap: Arc<TableDataMap>,
    modified_data: Vec<EntryTable>,
    removed_value: Vec<RemovedTable>,
}

impl DefaultMod {
    /// The records that the mod holds, by table and identifier. A table
    /// that ever got a record stays, with or without records.
    pub closed spec fn modified(&self) -> Modified {
        modified_of(self.modified_data@)
    }

    /// The pairs of a table and an identifier that the mod marks as
    /// removed.
    pub closed spec fn removed(&self) -> Removed {
        removed_of(self.removed_value@)
    }

    /// The record that the mod holds under that table and identifier, if
    /// it holds one.
    pub open spec fn record(&self, table: Seq<char>, id: IdView) -> Option<Seq<ValueView>> {
        record_in(self.modified(), table, id)
    }

    /// Whether the mod marks the record of that table and identifier as
    /// removed.
    pub open spec fn marked(&self, table: Seq<char>, id: IdView) -> bool {
        self.removed().contains((table, id))
    }

    /// How the records and marks are stored: no table and no identifier
    /// twice.
    pub closed spec fn well_stored(&self) -> bool {
        &&& tables_wf(self.modified_data@)
        &&& marks_wf(self.removed_value@)
    }

    /// Holds of every mod.
    #[verifier::type_invariant]
    pub open spec fn inv(&self) -> bool {
        &&& self.well_stored()
        &&& consistent(self.modified(), self.removed(), self.schema())
    }

    /// A mod for the game of that schema, without records or marks.
    pub fn new(metadata: Metadata, tabledatamap: Arc<TableDataMap>) -> (r: DefaultMod)
        ensures
            r.metadata() == metadata,
            r.schema() == tabledatamap@,
            r.modified() == Modified::empty(),
            r.removed() == Removed::empty(),
    {
        let r = DefaultMod {
            metadata,
            tabledatamap,
            modified_data: Vec::new(),
            removed_value: Vec::new(),
        };
        proof {
            assert(r.modified() =~= Modified::empty());
            assert(r.removed() =~= Removed::empty());
        }
        r
    }

    /// A mod of this kind can be written.
    pub fn is_writable(&self) -> (r: bool)
        ensures
            r,
    {
        true
    }
}

impl ModRead for DefaultMod {
    closed spec fn metadata(&self) -> Metadata {
        self.metadata
    }

    closed spec fn schema(&self) -> Map<Seq<char>, Seq<ColumnView>> {
        self.tabledatamap@
    }

    open spec fn removal(&self, table: Seq<char>, id: IdView) -> Result<bool, Error> {
        Ok(self.marked(table, id))
    }

    open spec fn lookup(&self, table: Seq<char>, id: IdView) -> Found {
        Ok(self.record(table, id))
    }

    fn get_metadata(&self) -> (r: &Metadata) {
        &self.metadata
    }

    fn get_tabledatamap(&self) -> (r: Arc<TableDataMap>) {
        self.tabledatamap.clone()
    }

    fn get_modified_table_list(&self) -> (r: Vec<String>)
        ensures
            forall|table: Seq<char>| names(r@, table) <==> self.modified().contains_key(table),
            forall|i: int, j: int| 0 <= i < j < r@.len() ==> r@[i]@ != r@[j]@,
    {
        proof {
            use_type_invariant(self);
        }
        let mut modified_table: Vec<String> = Vec::new();
        let mut i: usize = 0;
        while i < self.modified_data.len()
            invariant
                i <= self.modified_data@.len(),
                modified_table@.len() == i,
                forall|j: int| 0 <= j < i ==> modified_table@[j]@ == self.modified_data@[j].name@,
            decreases self.modified_data@.len() - i,
        {
            modified_table.push(self.modified_data[i].name.clone());
            i = i + 1;
        }
        proof {
            let listed = modified_table@;
            assert forall|table: Seq<char>|
                names(listed, table) implies self.modified().contains_key(table) by {
                let k = choose|k: int| 0 <= k < listed.len() && (#[trigger] listed[k])@ == table;
                assert(table_at(self.modified_data@, table, k));
            }
            assert forall|table: Seq<char>|
                self.modified().contains_key(table) implies names(listed, table) by {
                let k = choose|k: int| table_at(self.modified_data@, table, k);
                assert(listed[k]@ == table);
            }
        }
        modified_table
    }

    fn get_modified_entry_list(&self, table: &str) -> (r: Result<Vec<ID>, Error>)
        ensures
            r is Ok,
            forall|id: IdView| lists(r->Ok_0@, id) <==> self.record(table@, id) is Some,
            forall|i: int, j: int| 0 <= i < j < r->Ok_0@.len() ==> r->Ok_0@[i]@ != r->Ok_0@[j]@,
    {
        proof {
            use_type_invariant(self);
        }
        let i = match find_table(&self.modified_data, table) {
            Some(i) => i,
            None => {
                return Ok(Vec::new());
            },
        };
        proof {
            lemma_table_at(self.modified_data@, table@, i as int);
        }
        let held = &self.modified_data[i];
        let mut entrys: Vec<ID> = Vec::new();
        let mut k: usize = 0;
        while k < held.ids.len()
            invariant
                k <= held.ids@.len(),
                entrys@.len() == k,
                forall|j: int| 0 <= j < k ==> entrys@[j]@ == held.ids@[j]@,
            decreases held.ids@.len() - k,
        {
            entrys.push(held.ids[k].clone());
            k = k + 1;
        }
        proof {
            let listed = entrys@;
            assert forall|id: IdView| lists(listed, id) implies self.record(table@, id) is Some by {
                let c = choose|c: int| 0 <= c < listed.len() && (#[trigger] listed[c])@ == id;
                assert(held.keeps(id, c));
            }
            assert forall|id: IdView| self.record(table@, id) is Some implies lists(listed, id) by {
                let c = choose|c: int| held.keeps(id, c);
                assert(listed[c]@ == id);
            }
        }
        Ok(entrys)
    }

    fn get_entry(&self, table: &str, id: &ID) -> (r: Result<Option<&Entry>, Error>)
        ensures
            found_view(r) == Ok::<Option<Seq<ValueView>>, Error>(self.record(table@, id@)),
            r matches Ok(Some(e)) ==> self.schema().contains_key(table@) && fits(
                self.schema()[table@],
                e@,
            ),
    {
        proof {
            use_type_invariant(self);
        }
        match find_table(&self.modified_data, table) {
            None => Ok(None),
            Some(i) => {
                proof {
                    lemma_table_at(self.modified_data@, table@, i as int);
                }
                let held = &self.modified_data[i];
                match held.position(id) {
                    None => Ok(None),
                    Some(k) => {
                        proof {
                            held.lemma_kept(id@, k as int);
                            assert(self.record(table@, id@) == Some(held.entries@[k as int]@));
                        }
                        Ok(Some(&held.entries[k]))
                    },
                }
            },
        }
    }

    fn is_removed(&self, table: &str, id: &ID) -> (r: Result<bool, Error>)
        ensures
            r == Ok::<bool, Error>(self.marked(table@, id@)),
    {
        proof {
            use_type_invariant(self);
        }
        match find_marks(&self.removed_value, table) {
            Some(i) => {
                let r = self.removed_value[i].ids.contains(id);
                proof {
                    lemma_marks_at(self.removed_value@, table@, i as int, id@);
                }
                Ok(r)
            },
            None => Ok(false),
        }
    }

    fn list_removed(&self, table: &str) -> (r: Result<IdSet, Error>)
        ensures
            r is Ok,
            forall|id: IdView| r->Ok_0@.contains(id) <==> self.marked(table@, id),
    {
        proof {
            use_type_invariant(self);
        }
        match find_marks(&self.removed_value, table) {
            Some(i) => {
                let ids = self.removed_value[i].ids.clone();
                proof {
                    assert forall|id: IdView| ids@.contains(id) <==> self.marked(table@, id) by {
                        lemma_marks_at(self.removed_value@, table@, i as int, id);
                    }
                }
                Ok(ids)
            },
            None => Ok(IdSet::new()),
        }
    }
}

/// What [`DefaultMod::insert`] does. Where the table is none of the
/// schema, or the record does not fit it, the call fails and the mod
/// stays as it was. Otherwise the record stands under the table and
/// identifier, in place of an earlier one, and a mark there is gone.
pub open spec fn insert_step(
    before: &DefaultMod,
    after: &DefaultMod,
    table: Seq<char>,
    id: IdView,
    values: Seq<ValueView>,
    r: Result<(), Error>,
) -> bool {
    &&& r == insert_result(before.schema(), table, values)
    &&& after.metadata() == before.metadata()
    &&& after.schema() == before.schema()
    &&& r is Err ==> after.modified() == before.modified()
    &&& r is Err ==> after.removed() == before.removed()
    &&& r is Ok ==> after.modified() == with(before.modified(), table, id, values)
    &&& r is Ok ==> after.removed() == before.removed().remove((table, id))
}

/// What [`DefaultMod::remove`] does, which never fails: the record under
/// the table and identifier is dropped, if there was one, and the mark is
/// set.
pub open spec fn remove_step(
    before: &DefaultMod,
    after: &DefaultMod,
    table: Seq<char>,
    id: IdView,
) -> bool {
    &&& after.metadata() == before.metadata()
    &&& after.schema() == before.schema()
    &&& after.modified() == without(before.modified(), table, id)
    &&& after.removed() == before.removed().insert((table, id))
}

/// What [`DefaultMod::restore`] does, which never fails: the mark on the
/// table and identifier is gone, and the records are as they were.
pub open spec fn restore_step(
    before: &DefaultMod,
    after: &DefaultMod,
    table: Seq<char>,
    id: IdView,
) -> bool {
    &&& after.metadata() == before.metadata()
    &&& after.schema() == before.schema()
    &&& after.modified() == before.modified()
    &&& after.removed() == before.removed().remove((table, id))
}

/// Inserting into a table that is none of the schema fails as such, and
/// leaves the records and the marks as they were.
pub proof fn lemma_insert_into_unknown_table(
    before: &DefaultMod,
    after: &DefaultMod,
    table: Seq<char>,
    id: IdView,
    values: Seq<ValueView>,
    r: Result<(), Error>,
)
    requires
        insert_step(before, after, table, id, values, r),
        !before.schema().contains_key(table),
    ensures
        r == Err::<(), Error>(Error::UnknownTable),
        after.modified() == before.modified(),
        after.removed() == before.removed(),
{
}

/// A record that fits its table is inserted, and is then the one found
/// under its identifier.
pub proof fn lemma_insert_then_get_entry(
    before: &DefaultMod,
    after: &DefaultMod,
    table: Seq<char>,
    id: IdView,
    values: Seq<ValueView>,
    r: Result<(), Error>,
)
    requires
        insert_step(before, after, table, id, values, r),
        before.schema().contains_key(table),
        check_result(before.schema()[table], values) is Ok,
    ensures
        r is Ok,
        after.lookup(table, id) == Ok::<Option<Seq<ValueView>>, Error>(Some(values)),
        after.removal(table, id) == Ok::<bool, Error>(false),
{
}

/// Removing twice is removing once: the second removal changes neither
/// the records nor the marks.
pub proof fn lemma_remove_twice(
    before: &DefaultMod,
    once: &DefaultMod,
    twice: &DefaultMod,
    table: Seq<char>,
    id: IdView,
)
    requires
        remove_step(before, once, table, id),
        remove_step(once, twice, table, id),
    ensures
        once.removal(table, id) == Ok::<bool, Error>(true),
        once.lookup(table, id) == Ok::<Option<Seq<ValueView>>, Error>(None),
        twice.modified() == once.modified(),
        twice.removed() == once.removed(),
{
    if before.modified().contains_key(table) {
        assert(once.modified()[table].remove(id) =~= once.modified()[table]);
    }
    assert(twice.modified() =~= once.modified());
    assert(twice.removed() =~= once.removed());
}

/// A record inserted where one was removed is found again, and is no
/// longer marked as removed.
pub proof fn lemma_insert_after_remove(
    before: &DefaultMod,
    removed: &DefaultMod,
    after: &DefaultMod,
    table: Seq<char>,
    id: IdView,
    values: Seq<ValueView>,
    r: Result<(), Error>,
)
    requires
        remove_step(before, removed, table, id),
        insert_step(removed, after, table, id, values, r),
        insert_result(removed.schema(), table, values) is Ok,
    ensures
        r is Ok,
        removed.removal(table, id) == Ok::<bool, Error>(true),
        after.removal(table, id) == Ok::<bool, Error>(false),
        after.lookup(table, id) == Ok::<Option<Seq<ValueView>>, Error>(Some(values)),
{
}

impl ModWrite for DefaultMod {
    fn restore(&mut self, table: &str, id: &ID) -> (r: Result<(), Error>)
        ensures
            r is Ok,
            restore_step(old(self), final(self), table@, id@),
    {
        proof {
            use_type_invariant(&*self);
        }
        let ghost held = self.modified();
        let ghost marks = self.removed();
        let ghost schema = self.schema();
        let mut removed: Vec<RemovedTable> = Vec::new();
        proof {
            assert(removed_of(removed@) =~= Removed::empty());
            lemma_fewer_marks(held, marks, Removed::empty(), schema);
        }
        std::mem::swap(&mut self.removed_value, &mut removed);
        unmark(&mut removed, table, id);
        proof {
            lemma_fewer_marks(held, marks, marks.remove((table@, id@)), schema);
        }
        self.removed_value = removed;
        Ok(())
    }

    fn insert(&mut self, table: String, id: ID, value: Entry) -> (r: Result<(), Error>)
        ensures
            insert_step(old(self), final(self), table@, id@, value@, r),
    {
        proof {
            use_type_invariant(&*self);
        }
        let checked = match self.tabledatamap.get(table.as_str()) {
            Some(table_data) => table_data.check(&value),
            None => Err(Error::UnknownTable),
        };
        match checked {
            Ok(()) => {},
            Err(e) => {
                return Err(e);
            },
        }
        let ghost held = self.modified();
        let ghost marks = self.removed();
        let ghost schema = self.schema();
        let mut removed: Vec<RemovedTable> = Vec::new();
        let mut modified: Vec<EntryTable> = Vec::new();
        proof {
            assert(removed_of(removed@) =~= Removed::empty());
            assert(modified_of(modified@) =~= Modified::empty());
            lemma_fewer_marks(held, marks, Removed::empty(), schema);
            lemma_no_records(Removed::empty(), schema);
        }
        std::mem::swap(&mut self.removed_value, &mut removed);
        std::mem::swap(&mut self.modified_data, &mut modified);
        unmark(&mut removed, table.as_str(), &id);
        put_record(&mut modified, table, id, value);
        proof {
            lemma_no_records(marks.remove((table@, id@)), schema);
            lemma_insert_consistent(held, marks, schema, table@, id@, value@);
        }
        self.removed_value = removed;
        self.modified_data = modified;
        Ok(())
    }

    fn remove(&mut self, table: String, id: ID) -> (r: Result<(), Error>)
        ensures
            r is Ok,
            remove_step(old(self), final(self), table@, id@),
    {
        proof {
            use_type_invariant(&*self);
        }
        let already = match self.is_removed(table.as_str(), &id) {
            Ok(already) => already,
            Err(_) => false,
        };
        if already {
            proof {
                assert(self.record(table@, id@) is None);
                assert(self.modified() =~= without(self.modified(), table@, id@)) by {
                    if self.modified().contains_key(table@) {
                        assert(self.modified()[table@].remove(id@) =~= self.modified()[table@]);
                    }
                }
                assert(self.removed() =~= self.removed().insert((table@, id@)));
            }
            return Ok(());
        }
        let ghost held = self.modified();
        let ghost marks = self.removed();
        let ghost schema = self.schema();
        let mut removed: Vec<RemovedTable> = Vec::new();
        let mut modified: Vec<EntryTable> = Vec::new();
        proof {
            assert(removed_of(removed@) =~= Removed::empty());
            assert(modified_of(modified@) =~= Modified::empty());
            lemma_fewer_marks(held, marks, Removed::empty(), schema);
            lemma_no_records(Removed::empty(), schema);
        }
        std::mem::swap(&mut self.removed_value, &mut removed);
        std::mem::swap(&mut self.modified_data, &mut modified);
        drop_record(&mut modified, table.as_str(), &id);
        mark(&mut removed, table, id);
        proof {
            lemma_no_records(marks.insert((table@, id@)), schema);
            lemma_remove_consistent(held, marks, schema, table@, id@);
        }
        self.removed_value = removed;
        self.modified_data = modified;
        Ok(())
    }
}

} // verus!
