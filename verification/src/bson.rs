//! The BSON values a captured request carries: an ordered document type
//! kept in an `IndexMap`, and the values it holds.

use indexmap::IndexMap;
use vstd::prelude::*;

verus! {

/// A BSON value as the inspector keeps it.
#[derive(Debug)]
pub enum BsonVal {
    Doc(BsonDoc),
    Array(Vec<BsonVal>),
    Str(String),
    Int(i64),
    /// A double, held as its IEEE-754 bit pattern (`f64::to_bits`).
    Float(u64),
    Bool(bool),
    ObjectId(String),
    IsoDate(String),
    Timestamp(String),
    NumberLong(i64),
    Null,
}

/// An ordered BSON document: keys in first-insertion order, each key once.
/// The map sits in a private field of an opaque struct: a type declaration
/// of `IndexMap<String, BsonVal>` is refused by Verus, as `BsonVal` holds
/// documents in turn.  The document is known by `doc_entries` alone.
#[verifier::external_body]
#[derive(Debug)]
pub struct BsonDoc {
    map: IndexMap<String, BsonVal>,
}

/// The entries of `d`, in order: each key with its value.
pub uninterp spec fn doc_entries(d: BsonDoc) -> Seq<(Seq<char>, BsonVal)>;

/// Position of the first entry of `e` whose key is `k`.
pub open spec fn key_index(e: Seq<(Seq<char>, BsonVal)>, k: Seq<char>) -> Option<int> {
    if exists|i: int| 0 <= i < e.len() && (#[trigger] e[i]).0 == k {
        Some(choose|i: int| 0 <= i < e.len() && (#[trigger] e[i]).0 == k && forall|j: int| 0 <= j < i ==> (#[trigger] e[j]).0 != k)
    } else {
        None
    }
}

/// The value of key `k` in `d`, if any.
pub open spec fn doc_get(d: BsonDoc, k: Seq<char>) -> Option<BsonVal> {
    match key_index(doc_entries(d), k) {
        Some(i) => Some(doc_entries(d)[i].1),
        None => None,
    }
}

/// The keys of `e`, in order.
pub open spec fn keys_of(e: Seq<(Seq<char>, BsonVal)>) -> Seq<Seq<char>> {
    e.map_values(|p: (Seq<char>, BsonVal)| p.0)
}

impl BsonDoc {
    /// `IndexMap::new`: an empty document.
    #[verifier::external_body]
    pub fn new() -> (r: BsonDoc)
        ensures
            doc_entries(r) == Seq::<(Seq<char>, BsonVal)>::empty(),
    {
        BsonDoc { map: IndexMap::new() }
    }

    /// `IndexMap::insert`: a key already present keeps its place and takes
    /// the new value, whose predecessor is returned; a new key goes last.
    #[verifier::external_body]
    pub fn insert(&mut self, key: String, value: BsonVal) -> (r: Option<BsonVal>)
        ensures
            ({
                let e = doc_entries(*old(self));
                match key_index(e, key@) {
                    Some(i) => doc_entries(*final(self)) == e.update(i, (key@, value)) && r
                        == Some(e[i].1),
                    None => doc_entries(*final(self)) == e.push((key@, value)) && r is None,
                }
            }),
    {
        self.map.insert(key, value)
    }

    /// `IndexMap::len`: the number of entries.
    #[verifier::external_body]
    pub fn len(&self) -> (r: usize)
        ensures
            r == doc_entries(*self).len(),
    {
        self.map.len()
    }

    /// `IndexMap::get_index`: the entry at position `i`.
    #[verifier::external_body]
    pub fn get_index(&self, i: usize) -> (r: Option<(&String, &BsonVal)>)
        ensures
            match r {
                Some(p) => i < doc_entries(*self).len() && p.0@ == doc_entries(*self)[i as int].0
                    && *p.1 == doc_entries(*self)[i as int].1,
                None => i >= doc_entries(*self).len(),
            },
    {
        self.map.get_index(i)
    }

    /// `IndexMap::get`: the value of `key`, if present.
    #[verifier::external_body]
    pub fn get(&self, key: &str) -> (r: Option<&BsonVal>)
        ensures
            match doc_get(*self, key@) {
                Some(v) => r matches Some(x) && *x == v,
                None => r is None,
            },
    {
        self.map.get(key)
    }

    /// Whether the document has no entries.
    pub fn is_empty(&self) -> (r: bool)
        ensures
            r == (doc_entries(*self).len() == 0),
    {
        self.len() == 0
    }
}

/// The entries of a document after `k` is set to `v`: an existing key
/// keeps its place and takes the value, a new key goes last.
pub open spec fn entries_with(e: Seq<(Seq<char>, BsonVal)>, k: Seq<char>, v: BsonVal) -> Seq<(Seq<char>, BsonVal)> {
    match key_index(e, k) {
        Some(i) => e.update(i, (k, v)),
        None => e.push((k, v)),
    }
}

/// The entries of a document built from `pairs`, in order.
pub open spec fn entries_of_pairs(pairs: Seq<(String, BsonVal)>) -> Seq<(Seq<char>, BsonVal)>
    decreases pairs.len(),
{
    if pairs.len() == 0 {
        Seq::empty()
    } else {
        entries_with(entries_of_pairs(pairs.drop_last()), pairs.last().0@, pairs.last().1)
    }
}

impl BsonDoc {
    /// The document the key-value pairs `pairs` build in order, a later
    /// value of a key replacing an earlier one in its place.
    pub fn from_pairs(pairs: Vec<(String, BsonVal)>) -> (r: BsonDoc)
        ensures
            doc_entries(r) == entries_of_pairs(pairs@),
    {
        let ghost all = pairs@;
        let mut rest = pairs;
        let mut d = BsonDoc::new();
        let n = rest.len();
        let mut i: usize = 0;
        while i < n
            invariant
                n == all.len(),
                0 <= i <= n,
                rest@ == all.skip(i as int),
                doc_entries(d) == entries_of_pairs(all.take(i as int)),
            decreases n - i,
        {
            assert(all.take(i + 1).drop_last() =~= all.take(i as int));
            let (k, v) = rest.remove(0);
            assert(all[i as int] == (k, v));
            let _ = d.insert(k, v);
            assert(rest@ =~= all.skip(i + 1));
            i += 1;
        }
        assert(all.take(n as int) =~= all);
        d
    }
}

impl BsonDoc {
    /// `IndexMap::clone`: the same keys in the same order, each value
    /// copied by `Clone for BsonVal`, which is verified to give a value of
    /// the same content (`same_val`).  The copy therefore holds what the
    /// document holds, and counts as the same document.
    #[verifier::external_body]
    pub fn copy(&self) -> (r: BsonDoc)
        ensures
            r == *self,
    {
        BsonDoc { map: self.map.clone() }
    }
}

impl Clone for BsonDoc {
    fn clone(&self) -> (r: Self)
        ensures
            r == *self,
    {
        self.copy()
    }
}

/// `a` and `b` hold the same content: arrays of the same length whose
/// elements hold the same content, anything else equal.
pub open spec fn same_val(a: BsonVal, b: BsonVal) -> bool
    decreases a,
{
    match a {
        BsonVal::Array(x) => match b {
            BsonVal::Array(y) => x@.len() == y@.len() && forall|i: int|
                0 <= i < x@.len() ==> same_val(#[trigger] x@[i], y@[i]),
            _ => false,
        },
        _ => a == b,
    }
}

impl Clone for BsonVal {
    /// A value of the same content: arrays element by element, documents
    /// by `IndexMap::clone`.
    fn clone(&self) -> (r: Self)
        ensures
            same_val(*self, r),
        decreases self,
    {
        match self {
            BsonVal::Doc(d) => {
                BsonVal::Doc(d.copy())
            },
            BsonVal::Array(a) => {
                let mut out: Vec<BsonVal> = Vec::new();
                let mut i: usize = 0;
                while i < a.len()
                    invariant
                        *self == BsonVal::Array(*a),
                        0 <= i <= a@.len(),
                        out@.len() == i,
                        forall|k: int| 0 <= k < i ==> same_val(#[trigger] a@[k], out@[k]),
                    decreases a.len() - i,
                {
                    assert(decreases_to!(*self => self->Array_0));
                    assert(decreases_to!(*a => a[i as int]));
                    let v = a[i].clone();
                    let ghost before = out@;
                    out.push(v);
                    assert forall|k: int| 0 <= k < i + 1 implies same_val(#[trigger] a@[k], out@[k]) by {
                        if k < i {
                            assert(same_val(a@[k], before[k]));
                            assert(out@[k] == before[k]);
                        }
                    }
                    i += 1;
                }
                BsonVal::Array(out)
            },
            BsonVal::Str(x) => BsonVal::Str(x.clone()),
            BsonVal::Int(x) => BsonVal::Int(*x),
            BsonVal::Float(x) => BsonVal::Float(*x),
            BsonVal::Bool(x) => BsonVal::Bool(*x),
            BsonVal::ObjectId(x) => BsonVal::ObjectId(x.clone()),
            BsonVal::IsoDate(x) => BsonVal::IsoDate(x.clone()),
            BsonVal::Timestamp(x) => BsonVal::Timestamp(x.clone()),
            BsonVal::NumberLong(x) => BsonVal::NumberLong(*x),
            BsonVal::Null => BsonVal::Null,
        }
    }
}

} // verus!
