//! The marks that a mod puts on the records that it removes, table by
//! table.

use vstd::prelude::*;

use crate::defaultmod::Removed;
use crate::id::{IdView, ID};
use crate::idset::IdSet;
use crate::text::same_text;

verus! {

/// The identifiers that a mod marks as removed from one table.
pub(crate) struct RemovedTable {
    pub(crate) name: String,
    pub(crate) ids: IdSet,
}

/// Whether the table at place `i` is the one of that name.
pub(crate) open spec fn marks_at(tables: Seq<RemovedTable>, name: Seq<char>, i: int) -> bool {
    0 <= i < tables.len() && tables[i].name@ == name
}

/// No name occurs twice.
pub(crate) open spec fn marks_wf(tables: Seq<RemovedTable>) -> bool {
    forall|i: int, j: int|
        0 <= i < tables.len() && 0 <= j < tables.len() && tables[i].name@ == tables[j].name@ ==> i
            == j
}

/// Whether the table at place `i` is the one of that name and holds the
/// identifier.
pub(crate) open spec fn marked_at(
    tables: Seq<RemovedTable>,
    name: Seq<char>,
    id: IdView,
    i: int,
) -> bool {
    marks_at(tables, name, i) && tables[i].ids@.contains(id)
}

/// The pairs of a table and an identifier that are marked.
pub(crate) open spec fn removed_of(tables: Seq<RemovedTable>) -> Removed {
    Set::new(|p: (Seq<char>, IdView)| exists|i: int| marked_at(tables, p.0, p.1, i))
}

/// A pair is marked if its identifier is in the set of the table of its
/// name.
pub(crate) proof fn lemma_marks_at(tables: Seq<RemovedTable>, name: Seq<char>, i: int, id: IdView)
    requires
        marks_wf(tables),
        marks_at(tables, name, i),
    ensures
        removed_of(tables).contains((name, id)) <==> tables[i].ids@.contains(id),
{
    let p = (name, id);
    if removed_of(tables).contains(p) {
        let c = choose|c: int| marked_at(tables, p.0, p.1, c);
        assert(c == i);
    }
    if tables[i].ids@.contains(id) {
        assert(marked_at(tables, p.0, p.1, i));
    }
}

/// The place of the table of that name, if there is one.
pub(crate) fn find_marks(tables: &Vec<RemovedTable>, name: &str) -> (r: Option<usize>)
    ensures
        match r {
            Some(i) => marks_at(tables@, name@, i as int),
            None => forall|i: int| !marks_at(tables@, name@, i),
        },
{
    let mut i: usize = 0;
    while i < tables.len()
        invariant
            i <= tables@.len(),
            forall|j: int| 0 <= j < i ==> !marks_at(tables@, name@, j),
        decreases tables@.len() - i,
    {
        if same_text(tables[i].name.as_str(), name) {
            return Some(i);
        }
        i = i + 1;
    }
    None
}

/// Where one table changed its marks and kept its name, a pair is marked
/// afterwards if it is one of that table and marked there now, or one of
/// another table and was marked before.
pub(crate) proof fn lemma_marks_changed(before: Seq<RemovedTable>, after: Seq<RemovedTable>, i: int)
    requires
        marks_wf(before),
        0 <= i < before.len(),
        after.len() == before.len(),
        after[i].name == before[i].name,
        forall|j: int| 0 <= j < before.len() && j != i ==> after[j] == before[j],
    ensures
        marks_wf(after),
        forall|p: (Seq<char>, IdView)|
            removed_of(after).contains(p) <==> if p.0 == before[i].name@ {
                after[i].ids@.contains(p.1)
            } else {
                removed_of(before).contains(p)
            },
{
    assert forall|p: (Seq<char>, IdView)|
        removed_of(after).contains(p) <==> if p.0 == before[i].name@ {
            after[i].ids@.contains(p.1)
        } else {
            removed_of(before).contains(p)
        } by {
        if removed_of(after).contains(p) {
            let c = choose|c: int| marked_at(after, p.0, p.1, c);
            if c != i {
                assert(marked_at(before, p.0, p.1, c));
            }
        }
        if p.0 == before[i].name@ {
            if after[i].ids@.contains(p.1) {
                assert(marked_at(after, p.0, p.1, i));
            }
        } else if removed_of(before).contains(p) {
            let c = choose|c: int| marked_at(before, p.0, p.1, c);
            assert(marked_at(after, p.0, p.1, c));
        }
    }
}

/// Marks the record of that table and identifier as removed.
pub(crate) fn mark(tables: &mut Vec<RemovedTable>, table: String, id: ID)
    requires
        marks_wf(old(tables)@),
    ensures
        marks_wf(final(tables)@),
        removed_of(final(tables)@) == removed_of(old(tables)@).insert((table@, id@)),
{
    let ghost before = tables@;
    let ghost pair = (table@, id@);
    match find_marks(tables, table.as_str()) {
        Some(i) => {
            tables[i].ids.insert(id);
            proof {
                let after = tables@;
                lemma_marks_changed(before, after, i as int);
                assert forall|p: (Seq<char>, IdView)|
                    removed_of(after).contains(p) <==> removed_of(before).insert(pair).contains(
                        p,
                    ) by {
                    if p.0 == table@ {
                        if removed_of(before).contains(p) {
                            let c = choose|c: int| marked_at(before, p.0, p.1, c);
                            assert(c == i);
                        }
                        if before[i as int].ids@.contains(p.1) {
                            assert(marked_at(before, p.0, p.1, i as int));
                        }
                    }
                }
                assert(removed_of(after) =~= removed_of(before).insert(pair));
            }
        },
        None => {
            let mut ids = IdSet::new();
            ids.insert(id);
            let fresh = RemovedTable { name: table, ids };
            tables.push(fresh);
            proof {
                let after = tables@;
                let n = before.len() as int;
                assert(marks_wf(after)) by {
                    assert forall|i: int, j: int|
                        0 <= i < after.len() && 0 <= j < after.len() && after[i].name@
                            == after[j].name@ implies i == j by {
                        if i < n && j == n {
                            assert(marks_at(before, table@, i));
                        }
                        if j < n && i == n {
                            assert(marks_at(before, table@, j));
                        }
                    }
                }
                assert forall|p: (Seq<char>, IdView)|
                    removed_of(after).contains(p) <==> removed_of(before).insert(pair).contains(
                        p,
                    ) by {
                    if removed_of(after).contains(p) {
                        let c = choose|c: int| marked_at(after, p.0, p.1, c);
                        if c < n {
                            assert(marked_at(before, p.0, p.1, c));
                        }
                    }
                    if p == pair {
                        assert(marked_at(after, p.0, p.1, n));
                    } else if removed_of(before).contains(p) {
                        let c = choose|c: int| marked_at(before, p.0, p.1, c);
                        assert(marked_at(after, p.0, p.1, c));
                    }
                }
                assert(removed_of(after) =~= removed_of(before).insert(pair));
            }
        },
    }
}

/// Takes back the mark on the record of that table and identifier, if
/// there is one.
pub(crate) fn unmark(tables: &mut Vec<RemovedTable>, table: &str, id: &ID)
    requires
        marks_wf(old(tables)@),
    ensures
        marks_wf(final(tables)@),
        removed_of(final(tables)@) == removed_of(old(tables)@).remove((table@, id@)),
{
    let ghost before = tables@;
    let ghost pair = (table@, id@);
    match find_marks(tables, table) {
        Some(i) => {
            tables[i].ids.remove(id);
            proof {
                let after = tables@;
                lemma_marks_changed(before, after, i as int);
                assert forall|p: (Seq<char>, IdView)|
                    removed_of(after).contains(p) <==> removed_of(before).remove(pair).contains(
                        p,
                    ) by {
                    if p.0 == table@ {
                        if removed_of(before).contains(p) {
                            let c = choose|c: int| marked_at(before, p.0, p.1, c);
                            assert(c == i);
                        }
                        if before[i as int].ids@.contains(p.1) {
                            assert(marked_at(before, p.0, p.1, i as int));
                        }
                    }
                }
                assert(removed_of(after) =~= removed_of(before).remove(pair));
            }
        },
        None => {
            assert(removed_of(before) =~= removed_of(before).remove(pair));
        },
    }
}

} // verus!
