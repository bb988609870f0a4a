//! The identifier of a record within a table, and the order of identifiers.

use vstd::prelude::*;
use vstd::utf8::{encode_utf8, encode_utf8_decode_utf8};

verus! {

/// The identifier of a record within a table: a text key or an integer key.
#[derive(Debug, Hash, Eq, PartialOrd, Ord)]
pub enum ID {
    String(String),
    Integer(u64),
}

/// An [`ID`] as a mathematical value.
pub enum IdView {
    String(Seq<char>),
    Integer(u64),
}

impl View for ID {
    type V = IdView;

    open spec fn view(&self) -> IdView {
        match self {
            ID::String(s) => IdView::String(s@),
            ID::Integer(n) => IdView::Integer(*n),
        }
    }
}

/// `a` and `b` agree on their first `k` bytes, and there `a` ends while `b`
/// goes on, or `a` has the smaller byte.
pub open spec fn parts_at(a: Seq<u8>, b: Seq<u8>, k: int) -> bool {
    &&& 0 <= k <= a.len()
    &&& k < b.len()
    &&& forall|j: int| 0 <= j < k ==> a[j] == b[j]
    &&& k < a.len() ==> a[k] < b[k]
}

/// The lexicographic order of byte strings.
pub open spec fn bytes_lt(a: Seq<u8>, b: Seq<u8>) -> bool {
    exists|k: int| parts_at(a, b, k)
}

/// The order of identifiers: every text key comes before every integer key,
/// text keys are ordered as their UTF-8 encodings are, byte by byte, and
/// integer keys by their value.
pub open spec fn id_lt(a: IdView, b: IdView) -> bool {
    match (a, b) {
        (IdView::String(x), IdView::String(y)) => bytes_lt(encode_utf8(x), encode_utf8(y)),
        (IdView::String(_), IdView::Integer(_)) => true,
        (IdView::Integer(_), IdView::String(_)) => false,
        (IdView::Integer(x), IdView::Integer(y)) => x < y,
    }
}

/// No byte string comes before itself.
pub proof fn lemma_bytes_lt_irreflexive(a: Seq<u8>)
    ensures
        !bytes_lt(a, a),
{
}

/// The order of byte strings is transitive.
pub proof fn lemma_bytes_lt_transitive(a: Seq<u8>, b: Seq<u8>, c: Seq<u8>)
    requires
        bytes_lt(a, b),
        bytes_lt(b, c),
    ensures
        bytes_lt(a, c),
{
    let k1 = choose|k: int| parts_at(a, b, k);
    let k2 = choose|k: int| parts_at(b, c, k);
    let k = if k1 <= k2 { k1 } else { k2 };
    assert(parts_at(a, c, k));
}

/// Two byte strings that agree on their first `k` bytes are the same, or
/// one comes before the other.
proof fn lemma_bytes_lt_total_from(a: Seq<u8>, b: Seq<u8>, k: int)
    requires
        0 <= k <= a.len(),
        k <= b.len(),
        forall|j: int| 0 <= j < k ==> a[j] == b[j],
    ensures
        bytes_lt(a, b) || a == b || bytes_lt(b, a),
    decreases a.len() - k,
{
    if k == a.len() {
        if k == b.len() {
            assert(a =~= b);
        } else {
            assert(parts_at(a, b, k));
        }
    } else if k == b.len() {
        assert(parts_at(b, a, k));
    } else if a[k] < b[k] {
        assert(parts_at(a, b, k));
    } else if b[k] < a[k] {
        assert(parts_at(b, a, k));
    } else {
        lemma_bytes_lt_total_from(a, b, k + 1);
    }
}

/// Of two different byte strings, one comes before the other.
pub proof fn lemma_bytes_lt_total(a: Seq<u8>, b: Seq<u8>)
    ensures
        bytes_lt(a, b) || a == b || bytes_lt(b, a),
{
    lemma_bytes_lt_total_from(a, b, 0);
}

/// No identifier comes before itself.
pub proof fn lemma_id_lt_irreflexive(a: IdView)
    ensures
        !id_lt(a, a),
{
    if let IdView::String(x) = a {
        lemma_bytes_lt_irreflexive(encode_utf8(x));
    }
}

/// The order of identifiers is transitive.
pub proof fn lemma_id_lt_transitive(a: IdView, b: IdView, c: IdView)
    requires
        id_lt(a, b),
        id_lt(b, c),
    ensures
        id_lt(a, c),
{
    if let (IdView::String(x), IdView::String(y), IdView::String(z)) = (a, b, c) {
        lemma_bytes_lt_transitive(encode_utf8(x), encode_utf8(y), encode_utf8(z));
    }
}

/// Of two different identifiers, one comes before the other.
pub proof fn lemma_id_lt_total(a: IdView, b: IdView)
    ensures
        id_lt(a, b) || a == b || id_lt(b, a),
{
    if let (IdView::String(x), IdView::String(y)) = (a, b) {
        lemma_bytes_lt_total(encode_utf8(x), encode_utf8(y));
        encode_utf8_decode_utf8(x);
        encode_utf8_decode_utf8(y);
    }
}

/// Tells whether `a` comes before `b` in the lexicographic order.
fn bytes_precede(a: &[u8], b: &[u8]) -> (r: bool)
    ensures
        r == bytes_lt(a@, b@),
{
    let mut i: usize = 0;
    while i < a.len() && i < b.len()
        invariant
            i <= a.len(),
            i <= b.len(),
            forall|j: int| 0 <= j < i ==> a@[j] == b@[j],
        decreases a.len() - i,
    {
        if a[i] != b[i] {
            let r = a[i] < b[i];
            proof {
                if r {
                    assert(parts_at(a@, b@, i as int));
                } else {
                    assert forall|k: int| !parts_at(a@, b@, k) by {
                        if parts_at(a@, b@, k) {
                            if k > i {
                                assert(a@[i as int] == b@[i as int]);
                            }
                        }
                    }
                }
            }
            return r;
        }
        i = i + 1;
    }
    let r = i < b.len();
    proof {
        if r {
            assert(parts_at(a@, b@, i as int));
        } else {
            assert forall|k: int| !parts_at(a@, b@, k) by {
                if parts_at(a@, b@, k) {
                    assert(k < i);
                    assert(a@[k] < b@[k]);
                }
            }
        }
    }
    r
}

impl Clone for ID {
    fn clone(&self) -> (r: Self)
        ensures
            r@ == self@,
    {
        match self {
            ID::String(s) => ID::String(s.clone()),
            ID::Integer(n) => ID::Integer(*n),
        }
    }
}

impl PartialEq for ID {
    fn eq(&self, other: &ID) -> (r: bool) {
        match (self, other) {
            (ID::String(a), ID::String(b)) => *a == *b,
            (ID::Integer(a), ID::Integer(b)) => *a == *b,
            _ => false,
        }
    }
}

impl vstd::std_specs::cmp::PartialEqSpecImpl for ID {
    open spec fn obeys_eq_spec() -> bool {
        true
    }

    /// Two identifiers are equal if they are of one kind and hold the
    /// same key.
    open spec fn eq_spec(&self, other: &ID) -> bool {
        self@ == other@
    }
}

impl ID {
    /// Tells whether this identifier comes before `other` in the order of
    /// identifiers.
    pub fn precedes(&self, other: &ID) -> (r: bool)
        ensures
            r == id_lt(self@, other@),
    {
        match (self, other) {
            (ID::String(a), ID::String(b)) => bytes_precede(
                a.as_str().as_bytes(),
                b.as_str().as_bytes(),
            ),
            (ID::String(_), ID::Integer(_)) => true,
            (ID::Integer(_), ID::String(_)) => false,
            (ID::Integer(a), ID::Integer(b)) => *a < *b,
        }
    }
}

} // verus!
