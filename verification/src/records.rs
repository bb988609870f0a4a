//! The records that a mod holds, table by table.

use vstd::prelude::*;

use crate::defaultmod::{with, without, Modified, Records};
use crate::entry::Entry;
use crate::id::{IdView, ID};
use crate::text::same_text;

verus! {

/// The records that a mod holds in one table, each under its identifier.
pub(crate) struct EntryTable {
    pub(crate) name: String,
    pub(crate) ids: Vec<ID>,
    pub(crate) entries: Vec<Entry>,
}

impl EntryTable {
    /// Whether the record at place `k` is the one of that identifier.
    pub(crate) open spec fn keeps(self, id: IdView, k: int) -> bool {
        0 <= k < self.ids@.len() && self.ids@[k]@ == id
    }

    /// Each identifier has a record, and none occurs twice.
    pub(crate) open spec fn wf(self) -> bool {
        &&& self.ids@.len() == self.entries@.len()
        &&& forall|j: int, k: int|
            0 <= j < self.ids@.len() && 0 <= k < self.ids@.len() && self.ids@[j]@ == self.ids@[k]@
                ==> j == k
    }

    /// The records, by identifier.
    pub(crate) open spec fn records(self) -> Records {
        Map::new(
            |id: IdView| exists|k: int| self.keeps(id, k),
            |id: IdView| self.entries@[choose|k: int| self.keeps(id, k)]@,
        )
    }

    /// The record at a place is the one that the table holds under the
    /// identifier at that place.
    pub(crate) proof fn lemma_kept(self, id: IdView, k: int)
        requires
            self.wf(),
            self.keeps(id, k),
        ensures
            self.records().contains_key(id),
            self.records()[id] == self.entries@[k]@,
    {
        let c = choose|c: int| self.keeps(id, c);
        assert(c == k);
    }

    /// A table of that name without records.
    pub(crate) fn new(name: String) -> (r: EntryTable)
        ensures
            r.wf(),
            r.name == name,
            r.records() == Records::empty(),
    {
        let r = EntryTable { name, ids: Vec::new(), entries: Vec::new() };
        assert(r.records() =~= Records::empty());
        r
    }

    /// The place of the record of that identifier, if the table holds one.
    pub(crate) fn position(&self, id: &ID) -> (r: Option<usize>)
        ensures
            match r {
                Some(k) => self.keeps(id@, k as int),
                None => forall|k: int| !self.keeps(id@, k),
            },
    {
        let mut k: usize = 0;
        while k < self.ids.len()
            invariant
                k <= self.ids@.len(),
                forall|j: int| 0 <= j < k ==> !self.keeps(id@, j),
            decreases self.ids@.len() - k,
        {
            if self.ids[k] == *id {
                return Some(k);
            }
            k = k + 1;
        }
        None
    }

    /// Puts the record under the identifier, in place of the one that was
    /// there if there was one.
    pub(crate) fn put(&mut self, id: ID, entry: Entry)
        requires
            old(self).wf(),
        ensures
            final(self).wf(),
            final(self).name == old(self).name,
            final(self).records() == old(self).records().insert(id@, entry@),
    {
        let ghost before = *self;
        match self.position(&id) {
            Some(k) => {
                self.entries[k] = entry;
                proof {
                    let after = *self;
                    let target = before.records().insert(id@, entry@);
                    assert forall|i: IdView|
                        after.records().contains_key(i) implies #[trigger] target.contains_key(i)
                        && after.records()[i] == target[i] by {
                        let c = choose|c: int| after.keeps(i, c);
                        assert(before.keeps(i, c));
                        after.lemma_kept(i, c);
                        before.lemma_kept(i, c);
                    }
                    assert forall|i: IdView| #[trigger]
                        target.contains_key(i) implies after.records().contains_key(i) by {
                        if i == id@ {
                            assert(after.keeps(i, k as int));
                        } else {
                            let c = choose|c: int| before.keeps(i, c);
                            assert(after.keeps(i, c));
                        }
                    }
                    assert(after.records() =~= target);
                }
            },
            None => {
                self.ids.push(id);
                self.entries.push(entry);
                proof {
                    let after = *self;
                    let target = before.records().insert(id@, entry@);
                    let n = before.ids@.len() as int;
                    assert(after.wf()) by {
                        assert forall|j: int, k: int|
                            0 <= j < after.ids@.len() && 0 <= k < after.ids@.len()
                                && after.ids@[j]@ == after.ids@[k]@ implies j == k by {
                            if j < n && k == n {
                                assert(before.keeps(id@, j));
                            }
                            if k < n && j == n {
                                assert(before.keeps(id@, k));
                            }
                        }
                    }
                    assert forall|i: IdView|
                        after.records().contains_key(i) implies #[trigger] target.contains_key(i)
                        && after.records()[i] == target[i] by {
                        let c = choose|c: int| after.keeps(i, c);
                        after.lemma_kept(i, c);
                        if c < n {
                            assert(before.keeps(i, c));
                            before.lemma_kept(i, c);
                        }
                    }
                    assert forall|i: IdView| #[trigger]
                        target.contains_key(i) implies after.records().contains_key(i) by {
                        if i == id@ {
                            assert(after.keeps(i, n));
                        } else {
                            let c = choose|c: int| before.keeps(i, c);
                            assert(after.keeps(i, c));
                        }
                    }
                    assert(after.records() =~= target);
                }
            },
        }
    }

    /// Drops the record of that identifier, if the table holds one.
    pub(crate) fn discard(&mut self, id: &ID)
        requires
            old(self).wf(),
        ensures
            final(self).wf(),
            final(self).name == old(self).name,
            final(self).records() == old(self).records().remove(id@),
    {
        let ghost before = *self;
        match self.position(id) {
            Some(k) => {
                self.ids.remove(k);
                self.entries.remove(k);
                proof {
                    let after = *self;
                    assert(after.ids@ == before.ids@.remove(k as int));
                    assert(after.entries@ == before.entries@.remove(k as int));
                    let target = before.records().remove(id@);
                    assert forall|i: IdView|
                        after.records().contains_key(i) implies #[trigger] target.contains_key(i)
                        && after.records()[i] == target[i] by {
                        let c = choose|c: int| after.keeps(i, c);
                        after.lemma_kept(i, c);
                        if c < k {
                            assert(before.keeps(i, c));
                            before.lemma_kept(i, c);
                        } else {
                            assert(before.keeps(i, c + 1));
                            before.lemma_kept(i, c + 1);
                        }
                    }
                    assert forall|i: IdView| #[trigger]
                        target.contains_key(i) implies after.records().contains_key(i) by {
                        let c = choose|c: int| before.keeps(i, c);
                        if c < k {
                            assert(after.keeps(i, c));
                        } else {
                            assert(after.keeps(i, c - 1));
                        }
                    }
                    assert(after.records() =~= target);
                }
            },
            None => {
                assert(self.records() =~= before.records().remove(id@));
            },
        }
    }
}

/// Whether the table at place `i` is the one of that name.
pub(crate) open spec fn table_at(tables: Seq<EntryTable>, name: Seq<char>, i: int) -> bool {
    0 <= i < tables.len() && tables[i].name@ == name
}

/// Each table is well formed, and no name occurs twice.
pub(crate) open spec fn tables_wf(tables: Seq<EntryTable>) -> bool {
    &&& forall|i: int| 0 <= i < tables.len() ==> (#[trigger] tables[i]).wf()
    &&& forall|i: int, j: int|
        0 <= i < tables.len() && 0 <= j < tables.len() && tables[i].name@ == tables[j].name@ ==> i
            == j
}

/// The records of every table, by the table's name.
pub(crate) open spec fn modified_of(tables: Seq<EntryTable>) -> Modified {
    Map::new(
        |name: Seq<char>| exists|i: int| table_at(tables, name, i),
        |name: Seq<char>| tables[choose|i: int| table_at(tables, name, i)].records(),
    )
}

/// The table at a place is the one that the tables hold under the name at
/// that place.
pub(crate) proof fn lemma_table_at(tables: Seq<EntryTable>, name: Seq<char>, i: int)
    requires
        tables_wf(tables),
        table_at(tables, name, i),
    ensures
        modified_of(tables).contains_key(name),
        modified_of(tables)[name] == tables[i].records(),
{
    let c = choose|c: int| table_at(tables, name, c);
    assert(c == i);
}

/// The place of the table of that name, if there is one.
pub(crate) fn find_table(tables: &Vec<EntryTable>, name: &str) -> (r: Option<usize>)
    ensures
        match r {
            Some(i) => table_at(tables@, name@, i as int),
            None => forall|i: int| !table_at(tables@, name@, i),
        },
{
    let mut i: usize = 0;
    while i < tables.len()
        invariant
            i <= tables@.len(),
            forall|j: int| 0 <= j < i ==> !table_at(tables@, name@, j),
        decreases tables@.len() - i,
    {
        if same_text(tables[i].name.as_str(), name) {
            return Some(i);
        }
        i = i + 1;
    }
    None
}

/// Where one table changed its records and kept its name, the records of
/// every table changed in that table alone.
pub(crate) proof fn lemma_table_changed(before: Seq<EntryTable>, after: Seq<EntryTable>, i: int)
    requires
        tables_wf(before),
        0 <= i < before.len(),
        after.len() == before.len(),
        after[i].wf(),
        after[i].name == before[i].name,
        forall|j: int| 0 <= j < before.len() && j != i ==> after[j] == before[j],
    ensures
        tables_wf(after),
        modified_of(after) == modified_of(before).insert(before[i].name@, after[i].records()),
{
    assert(tables_wf(after)) by {
        assert forall|j: int| 0 <= j < after.len() implies (#[trigger] after[j]).wf() by {
            if j != i {
                assert(before[j].wf());
            }
        }
    }
    let name = before[i].name@;
    let target = modified_of(before).insert(name, after[i].records());
    assert forall|n: Seq<char>|
        modified_of(after).contains_key(n) implies #[trigger] target.contains_key(n)
        && modified_of(after)[n] == target[n] by {
        let c = choose|c: int| table_at(after, n, c);
        lemma_table_at(after, n, c);
        if c != i {
            assert(table_at(before, n, c));
            lemma_table_at(before, n, c);
        }
    }
    assert forall|n: Seq<char>| #[trigger]
        target.contains_key(n) implies modified_of(after).contains_key(n) by {
        if n == name {
            assert(table_at(after, n, i));
        } else {
            let c = choose|c: int| table_at(before, n, c);
            assert(table_at(after, n, c));
        }
    }
    assert(modified_of(after) =~= target);
}

/// Where a table of a new name was added at the end, the records of every
/// table gained that table.
pub(crate) proof fn lemma_table_added(before: Seq<EntryTable>, table: EntryTable)
    requires
        tables_wf(before),
        table.wf(),
        forall|i: int| !table_at(before, table.name@, i),
    ensures
        tables_wf(before.push(table)),
        modified_of(before.push(table)) == modified_of(before).insert(table.name@, table.records()),
{
    let after = before.push(table);
    let n = before.len() as int;
    assert(tables_wf(after)) by {
        assert forall|j: int| 0 <= j < after.len() implies (#[trigger] after[j]).wf() by {
            if j < n {
                assert(before[j].wf());
            }
        }
        assert forall|i: int, j: int|
            0 <= i < after.len() && 0 <= j < after.len() && after[i].name@
                == after[j].name@ implies i == j by {
            if i < n && j == n {
                assert(table_at(before, table.name@, i));
            }
            if j < n && i == n {
                assert(table_at(before, table.name@, j));
            }
        }
    }
    let target = modified_of(before).insert(table.name@, table.records());
    assert forall|name: Seq<char>|
        modified_of(after).contains_key(name) implies #[trigger] target.contains_key(name)
        && modified_of(after)[name] == target[name] by {
        let c = choose|c: int| table_at(after, name, c);
        lemma_table_at(after, name, c);
        if c < n {
            assert(table_at(before, name, c));
            lemma_table_at(before, name, c);
        }
    }
    assert forall|name: Seq<char>| #[trigger]
        target.contains_key(name) implies modified_of(after).contains_key(name) by {
        if name == table.name@ {
            assert(table_at(after, name, n));
        } else {
            let c = choose|c: int| table_at(before, name, c);
            assert(table_at(after, name, c));
        }
    }
    assert(modified_of(after) =~= target);
}

/// Puts the record under that table and identifier. A table that the mod
/// held no record in is added.
pub(crate) fn put_record(tables: &mut Vec<EntryTable>, table: String, id: ID, entry: Entry)
    requires
        tables_wf(old(tables)@),
    ensures
        tables_wf(final(tables)@),
        modified_of(final(tables)@) == with(modified_of(old(tables)@), table@, id@, entry@),
{
    let ghost before = tables@;
    match find_table(tables, table.as_str()) {
        Some(i) => {
            proof {
                lemma_table_at(before, table@, i as int);
            }
            tables[i].put(id, entry);
            proof {
                lemma_table_changed(before, tables@, i as int);
            }
        },
        None => {
            let mut fresh = EntryTable::new(table);
            fresh.put(id, entry);
            tables.push(fresh);
            proof {
                lemma_table_added(before, fresh);
            }
        },
    }
}

/// Drops the record of that table and identifier, if there is one. The
/// table stays, with or without records.
pub(crate) fn drop_record(tables: &mut Vec<EntryTable>, table: &str, id: &ID)
    requires
        tables_wf(old(tables)@),
    ensures
        tables_wf(final(tables)@),
        modified_of(final(tables)@) == without(modified_of(old(tables)@), table@, id@),
{
    let ghost before = tables@;
    match find_table(tables, table) {
        Some(i) => {
            proof {
                lemma_table_at(before, table@, i as int);
            }
            tables[i].discard(id);
            proof {
                lemma_table_changed(before, tables@, i as int);
            }
        },
        None => {},
    }
}

} // verus!
