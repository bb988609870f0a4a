//! An ordered set of identifiers.

use vstd::prelude::*;

use crate::id::{
    id_lt, lemma_id_lt_irreflexive, lemma_id_lt_total, lemma_id_lt_transitive, IdView, ID,
};

verus! {

/// Whether a list of identifiers is in strictly ascending order.
pub open spec fn ascending(s: Seq<IdView>) -> bool {
    forall|i: int, j: int| 0 <= i < j < s.len() ==> id_lt(s[i], s[j])
}

/// A list in strictly ascending order holds nothing twice.
pub proof fn lemma_ascending_distinct(s: Seq<IdView>)
    requires
        ascending(s),
    ensures
        forall|i: int, j: int| 0 <= i < s.len() && 0 <= j < s.len() && s[i] == s[j] ==> i == j,
{
    assert forall|i: int, j: int|
        0 <= i < s.len() && 0 <= j < s.len() && s[i] == s[j] implies i == j by {
        lemma_id_lt_irreflexive(s[i]);
    }
}

/// The first of a list in ascending order comes before every other
/// member, or is that member.
proof fn lemma_first_is_least(s: Seq<IdView>, x: IdView)
    requires
        ascending(s),
        s.contains(x),
    ensures
        s[0] == x || id_lt(s[0], x),
{
    let k = choose|k: int| 0 <= k < s.len() && s[k] == x;
    if k > 0 {
        assert(id_lt(s[0], s[k]));
    }
}

/// A set has one listing in ascending order: two such lists with the same
/// members are the same list.
pub proof fn lemma_ascending_unique(a: Seq<IdView>, b: Seq<IdView>)
    requires
        ascending(a),
        ascending(b),
        a.to_set() == b.to_set(),
    ensures
        a == b,
    decreases a.len(),
{
    lemma_ascending_distinct(a);
    lemma_ascending_distinct(b);
    if a.len() == 0 {
        if b.len() > 0 {
            assert(b.contains(b[0]));
            assert(b.to_set().contains(b[0]));
            assert(a.contains(b[0]));
        }
        assert(a =~= b);
    } else {
        assert(a.contains(a[0]));
        assert(a.to_set().contains(a[0]));
        assert(b.contains(a[0]));
        assert(b.contains(b[0]));
        assert(b.to_set().contains(b[0]));
        assert(a.contains(b[0]));
        lemma_first_is_least(a, b[0]);
        lemma_first_is_least(b, a[0]);
        if a[0] != b[0] {
            lemma_id_lt_transitive(a[0], b[0], a[0]);
            lemma_id_lt_irreflexive(a[0]);
        }
        let ra = a.drop_first();
        let rb = b.drop_first();
        assert forall|x: IdView| ra.contains(x) implies rb.contains(x) by {
            let k = choose|k: int| 0 <= k < ra.len() && ra[k] == x;
            assert(a[k + 1] == x);
            assert(a.contains(x));
            assert(a.to_set().contains(x));
            assert(b.contains(x));
            let j = choose|j: int| 0 <= j < b.len() && b[j] == x;
            assert(j != 0);
            assert(rb[j - 1] == x);
        }
        assert forall|x: IdView| rb.contains(x) implies ra.contains(x) by {
            let k = choose|k: int| 0 <= k < rb.len() && rb[k] == x;
            assert(b[k + 1] == x);
            assert(b.contains(x));
            assert(b.to_set().contains(x));
            assert(a.contains(x));
            let j = choose|j: int| 0 <= j < a.len() && a[j] == x;
            assert(j != 0);
            assert(ra[j - 1] == x);
        }
        assert(ra.to_set() =~= rb.to_set());
        assert(ascending(ra)) by {
            assert forall|i: int, j: int| 0 <= i < j < ra.len() implies id_lt(ra[i], ra[j]) by {
                assert(id_lt(a[i + 1], a[j + 1]));
            }
        }
        assert(ascending(rb)) by {
            assert forall|i: int, j: int| 0 <= i < j < rb.len() implies id_lt(rb[i], rb[j]) by {
                assert(id_lt(b[i + 1], b[j + 1]));
            }
        }
        lemma_ascending_unique(ra, rb);
        assert(a =~= seq![a[0]] + ra);
        assert(b =~= seq![b[0]] + rb);
    }
}

/// A set of identifiers that is kept, and read, in the order of
/// identifiers.
#[derive(Debug)]
pub struct IdSet {
    ids: Vec<ID>,
}

impl View for IdSet {
    type V = Set<IdView>;

    open spec fn view(&self) -> Set<IdView> {
        self.listing().to_set()
    }
}

impl Clone for IdSet {
    fn clone(&self) -> (r: Self)
        ensures
            r.listing() == self.listing(),
    {
        proof {
            use_type_invariant(self);
        }
        let mut ids: Vec<ID> = Vec::new();
        let mut i: usize = 0;
        while i < self.ids.len()
            invariant
                i <= self.ids@.len(),
                ids@.len() == i,
                forall|j: int| 0 <= j < i ==> ids@[j]@ == self.ids@[j]@,
            decreases self.ids@.len() - i,
        {
            ids.push(self.ids[i].clone());
            i = i + 1;
        }
        proof {
            let r = IdSet { ids };
            assert(r.listing() =~= self.listing());
        }
        IdSet { ids }
    }
}

impl IdSet {
    /// The members, in order.
    pub closed spec fn listing(&self) -> Seq<IdView> {
        Seq::new(self.ids@.len(), |i: int| self.ids@[i]@)
    }

    /// Holds of every set: its members are listed in strictly ascending
    /// order.
    #[verifier::type_invariant]
    pub open spec fn inv(self) -> bool {
        ascending(self.listing())
    }

    /// The empty set.
    pub fn new() -> (r: IdSet)
        ensures
            r.listing() == Seq::<IdView>::empty(),
            r@ == Set::<IdView>::empty(),
    {
        let r = IdSet { ids: Vec::new() };
        assert(r.listing() =~= Seq::<IdView>::empty());
        assert(r@ =~= Set::<IdView>::empty());
        r
    }

    /// The number of members.
    pub fn len(&self) -> (n: usize)
        ensures
            n == self.listing().len(),
            n == self@.len(),
    {
        proof {
            use_type_invariant(self);
            lemma_ascending_distinct(self.listing());
            self.listing().unique_seq_to_set();
        }
        self.ids.len()
    }

    /// The member at that place in the order, if the set has so many.
    pub fn get(&self, index: usize) -> (r: Option<&ID>)
        ensures
            match r {
                Some(id) => index < self.listing().len() && id@ == self.listing()[index as int],
                None => index >= self.listing().len(),
            },
    {
        if index < self.ids.len() {
            Some(&self.ids[index])
        } else {
            None
        }
    }

    /// Tells whether the identifier is a member.
    pub fn contains(&self, id: &ID) -> (r: bool)
        ensures
            r == self@.contains(id@),
    {
        let mut i: usize = 0;
        while i < self.ids.len()
            invariant
                i <= self.ids@.len(),
                forall|j: int| 0 <= j < i ==> self.listing()[j] != id@,
            decreases self.ids@.len() - i,
        {
            if self.ids[i] == *id {
                assert(self.listing()[i as int] == id@);
                return true;
            }
            i = i + 1;
        }
        false
    }

    /// Makes the identifier a member, and tells whether it was none
    /// before.
    pub fn insert(&mut self, id: ID) -> (r: bool)
        ensures
            final(self)@ == old(self)@.insert(id@),
            r == !old(self)@.contains(id@),
    {
        proof {
            use_type_invariant(&*self);
        }
        let ghost before = self.listing();
        let mut taken = IdSet::new();
        std::mem::swap(self, &mut taken);
        let IdSet { mut ids } = taken;
        let mut place: usize = 0;
        while place < ids.len() && ids[place].precedes(&id)
            invariant
                place <= ids@.len(),
                forall|j: int| 0 <= j < place ==> id_lt(ids@[j]@, id@),
            decreases ids@.len() - place,
        {
            place = place + 1;
        }
        if place < ids.len() && ids[place] == id {
            proof {
                let same = IdSet { ids };
                assert(same.listing() =~= before);
                assert(before[place as int] == id@);
                assert(before.to_set() =~= before.to_set().insert(id@));
            }
            *self = IdSet { ids };
            return false;
        }
        proof {
            assert forall|k: int| place <= k < before.len() implies id_lt(id@, before[k]) by {
                lemma_id_lt_total(id@, before[place as int]);
                if place < k {
                    lemma_id_lt_transitive(id@, before[place as int], before[k]);
                }
            }
            assert forall|k: int| 0 <= k < before.len() implies before[k] != id@ by {
                lemma_id_lt_irreflexive(id@);
            }
        }
        ids.insert(place, id);
        proof {
            let next = IdSet { ids };
            assert(next.listing() =~= before.insert(place as int, id@));
            assert(ascending(next.listing()));
            let target = before.to_set().insert(id@);
            assert(next.listing().to_set() =~= target) by {
                assert forall|x: IdView| target.contains(x) implies next.listing().contains(x) by {
                    if x == id@ {
                        assert(next.listing()[place as int] == x);
                    } else {
                        let k = choose|k: int| 0 <= k < before.len() && before[k] == x;
                        if k < place {
                            assert(next.listing()[k] == x);
                        } else {
                            assert(next.listing()[k + 1] == x);
                        }
                    }
                }
                assert forall|x: IdView| next.listing().contains(x) implies target.contains(x) by {
                    let k = choose|k: int| 0 <= k < next.listing().len() && next.listing()[k] == x;
                    if k < place {
                        assert(before[k] == x);
                    } else if k > place {
                        assert(before[k - 1] == x);
                    }
                }
            }
        }
        *self = IdSet { ids };
        true
    }

    /// Takes the identifier out of the set, and tells whether it was a
    /// member.
    pub fn remove(&mut self, id: &ID) -> (r: bool)
        ensures
            final(self)@ == old(self)@.remove(id@),
            r == old(self)@.contains(id@),
    {
        proof {
            use_type_invariant(&*self);
            lemma_ascending_distinct(self.listing());
        }
        let ghost before = self.listing();
        let mut taken = IdSet::new();
        std::mem::swap(self, &mut taken);
        let IdSet { mut ids } = taken;
        let mut i: usize = 0;
        while i < ids.len() && ids[i] != *id
            invariant
                i <= ids@.len(),
                before == Seq::new(ids@.len(), |k: int| ids@[k]@),
                forall|j: int| 0 <= j < i ==> before[j] != id@,
            decreases ids@.len() - i,
        {
            i = i + 1;
        }
        if i < ids.len() {
            assert(before[i as int] == id@);
            ids.remove(i);
            proof {
                let next = IdSet { ids };
                assert(next.listing() =~= before.remove(i as int));
                assert(ascending(next.listing()));
                let target = before.to_set().remove(id@);
                assert(next.listing().to_set() =~= target) by {
                    assert forall|x: IdView| target.contains(x) implies next.listing().contains(
                        x,
                    ) by {
                        let k = choose|k: int| 0 <= k < before.len() && before[k] == x;
                        if k < i {
                            assert(next.listing()[k] == x);
                        } else {
                            assert(next.listing()[k - 1] == x);
                        }
                    }
                    assert forall|x: IdView| next.listing().contains(x) implies target.contains(
                        x,
                    ) by {
                        let k = choose|k: int|
                            0 <= k < next.listing().len() && next.listing()[k] == x;
                        if k < i {
                            assert(before[k] == x);
                        } else {
                            assert(before[k + 1] == x);
                        }
                    }
                }
            }
            *self = IdSet { ids };
            true
        } else {
            proof {
                let same = IdSet { ids };
                assert(same.listing() =~= before);
                assert(before.to_set() =~= before.to_set().remove(id@));
            }
            *self = IdSet { ids };
            false
        }
    }
}

} // verus!
