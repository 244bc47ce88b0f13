//! The schemaless document model: an ordered record of key-value entries with
//! unique keys, as the store holds and returns it. Updates follow the store's
//! field-set semantics: present keys are rewritten in place, new keys are
//! appended in patch order.

use vstd::prelude::*;

use crate::object_id::ObjectId;

verus! {

/// A value a document field can hold: a store-assigned identifier, a string,
/// or a millisecond timestamp.
pub enum Value {
    Id(ObjectId),
    Text(String),
    Stamp(i64),
}

/// The mathematical form of a field value.
pub enum ValueV {
    Id(Seq<u8>),
    Text(Seq<char>),
    Stamp(i64),
}

impl View for Value {
    type V = ValueV;

    open spec fn view(&self) -> ValueV {
        match self {
            Value::Id(oid) => ValueV::Id(oid@),
            Value::Text(s) => ValueV::Text(s@),
            Value::Stamp(t) => ValueV::Stamp(*t),
        }
    }
}

impl Value {
    /// An owned copy of this value.
    pub fn duplicate(&self) -> (r: Value)
        ensures
            r@ == self@,
    {
        match self {
            Value::Id(oid) => Value::Id(oid.duplicate()),
            Value::Text(s) => Value::Text(s.clone()),
            Value::Stamp(t) => Value::Stamp(*t),
        }
    }
}

/// The mathematical form of a document: its entries in order.
pub type DocView = Seq<(Seq<char>, ValueV)>;

/// Whether a document's keys are pairwise distinct.
pub open spec fn doc_wf(d: DocView) -> bool {
    forall|i: int, j: int| 0 <= i < d.len() && 0 <= j < d.len() && i != j ==> (#[trigger] d[i]).0
        != (#[trigger] d[j]).0
}

/// Whether a document holds an entry under a key.
pub open spec fn doc_has_key(d: DocView, k: Seq<char>) -> bool {
    exists|i: int| 0 <= i < d.len() && (#[trigger] d[i]).0 == k
}

/// The position of the entry under a key.
pub open spec fn doc_index_of(d: DocView, k: Seq<char>) -> int {
    choose|i: int| 0 <= i < d.len() && (#[trigger] d[i]).0 == k
}

/// The value a document holds under a key, if any.
pub open spec fn doc_lookup(d: DocView, k: Seq<char>) -> Option<ValueV> {
    if doc_has_key(d, k) {
        Some(d[doc_index_of(d, k)].1)
    } else {
        None
    }
}

/// A document after setting one field: rewritten in place if the key is
/// present, appended otherwise.
pub open spec fn doc_set(d: DocView, k: Seq<char>, v: ValueV) -> DocView {
    if doc_has_key(d, k) {
        d.update(doc_index_of(d, k), (k, v))
    } else {
        d.push((k, v))
    }
}

/// A document after setting every field of a patch, in patch order.
pub open spec fn doc_apply(d: DocView, changes: DocView) -> DocView
    decreases changes.len(),
{
    if changes.len() == 0 {
        d
    } else {
        doc_apply(doc_set(d, changes[0].0, changes[0].1), changes.skip(1))
    }
}

/// Setting a field keeps the keys distinct, binds that key to the new value,
/// and leaves every other key's binding unchanged.
pub proof fn lemma_doc_set(d: DocView, k: Seq<char>, v: ValueV)
    requires
        doc_wf(d),
    ensures
        doc_wf(doc_set(d, k, v)),
        doc_lookup(doc_set(d, k, v), k) == Some(v),
        forall|k2: Seq<char>| k2 != k ==> #[trigger] doc_lookup(doc_set(d, k, v), k2)
            == doc_lookup(d, k2),
        doc_has_key(d, k) ==> doc_set(d, k, v).len() == d.len(),
        !doc_has_key(d, k) ==> doc_set(d, k, v).len() == d.len() + 1,
{
    let d2 = doc_set(d, k, v);
    if doc_has_key(d, k) {
        let i = doc_index_of(d, k);
        assert(0 <= i < d.len() && d[i].0 == k);
        assert(forall|j: int| 0 <= j < d2.len() && j != i ==> d2[j] == d[j]);
        assert(d2[i] == (k, v));
        assert(doc_has_key(d2, k));
        let i2 = doc_index_of(d2, k);
        assert(0 <= i2 < d2.len() && d2[i2].0 == k);
        assert(i2 == i);
        assert forall|k2: Seq<char>| k2 != k implies #[trigger] doc_lookup(d2, k2) == doc_lookup(
            d,
            k2,
        ) by {
            if doc_has_key(d, k2) {
                let j = doc_index_of(d, k2);
                assert(d2[j] == d[j]);
                assert(doc_has_key(d2, k2));
                let j2 = doc_index_of(d2, k2);
                assert(d2[j2].0 == k2);
                assert(j2 != i);
                assert(d[j2].0 == k2);
                assert(j2 == j);
            } else {
                if doc_has_key(d2, k2) {
                    let j2 = doc_index_of(d2, k2);
                    assert(d2[j2].0 == k2);
                    assert(j2 != i);
                    assert(d[j2].0 == k2);
                }
            }
        }
    } else {
        assert(forall|j: int| 0 <= j < d.len() ==> (#[trigger] d[j]).0 != k);
        assert(d2 == d.push((k, v)));
        assert(d2[d.len() as int].0 == k);
        assert(doc_has_key(d2, k));
        let i2 = doc_index_of(d2, k);
        assert(0 <= i2 < d2.len() && d2[i2].0 == k);
        assert(i2 == d.len());
        assert forall|k2: Seq<char>| k2 != k implies #[trigger] doc_lookup(d2, k2) == doc_lookup(
            d,
            k2,
        ) by {
            if doc_has_key(d, k2) {
                let j = doc_index_of(d, k2);
                assert(d2[j] == d[j]);
                assert(doc_has_key(d2, k2));
                let j2 = doc_index_of(d2, k2);
                assert(d2[j2].0 == k2);
                assert(j2 != d.len());
                assert(d[j2].0 == k2);
                assert(j2 == j);
            } else {
                if doc_has_key(d2, k2) {
                    let j2 = doc_index_of(d2, k2);
                    assert(d2[j2].0 == k2);
                    assert(j2 != d.len());
                    assert(d[j2].0 == k2);
                }
            }
        }
    }
}

/// In a document with distinct keys, an entry whose key heads the document is
/// the only entry under that key.
pub proof fn lemma_head_key_not_in_tail(changes: DocView)
    requires
        doc_wf(changes),
        changes.len() > 0,
    ensures
        !doc_has_key(changes.skip(1), changes[0].0),
        doc_wf(changes.skip(1)),
        doc_lookup(changes, changes[0].0) == Some(changes[0].1),
{
    let k = changes[0].0;
    let tail = changes.skip(1);
    if doc_has_key(tail, k) {
        let i = doc_index_of(tail, k);
        assert(tail[i] == changes[i + 1]);
        assert(changes[i + 1].0 == changes[0].0);
    }
    assert(forall|i: int, j: int|
        0 <= i < tail.len() && 0 <= j < tail.len() && i != j ==> (#[trigger] tail[i]).0
            != (#[trigger] tail[j]).0) by {
        assert(forall|i: int| 0 <= i < tail.len() ==> #[trigger] tail[i] == changes[i + 1]);
    }
    assert(doc_has_key(changes, k));
    let i0 = doc_index_of(changes, k);
    assert(changes[i0].0 == k);
    assert(i0 == 0);
}

/// A key bound in the tail of a document with distinct keys is bound to the
/// same value in the whole document.
pub proof fn lemma_tail_lookup(changes: DocView, k: Seq<char>)
    requires
        doc_wf(changes),
        changes.len() > 0,
        k != changes[0].0,
    ensures
        doc_lookup(changes.skip(1), k) == doc_lookup(changes, k),
{
    let tail = changes.skip(1);
    assert(forall|i: int| 0 <= i < tail.len() ==> #[trigger] tail[i] == changes[i + 1]);
    if doc_has_key(tail, k) {
        let i = doc_index_of(tail, k);
        assert(tail[i].0 == k);
        assert(changes[i + 1].0 == k);
        assert(doc_has_key(changes, k));
        let j = doc_index_of(changes, k);
        assert(changes[j].0 == k);
        assert(j == i + 1);
    } else {
        if doc_has_key(changes, k) {
            let j = doc_index_of(changes, k);
            assert(changes[j].0 == k);
            assert(j != 0);
            assert(tail[j - 1] == changes[j]);
            assert(doc_has_key(tail, k));
        }
    }
}

/// Applying a patch keeps the keys distinct; afterwards each key patched is
/// bound to its patch value and every other key keeps its old binding.
pub proof fn lemma_doc_apply(d: DocView, changes: DocView)
    requires
        doc_wf(d),
        doc_wf(changes),
    ensures
        doc_wf(doc_apply(d, changes)),
        forall|k: Seq<char>| #[trigger] doc_lookup(doc_apply(d, changes), k) == if doc_has_key(
            changes,
            k,
        ) {
            doc_lookup(changes, k)
        } else {
            doc_lookup(d, k)
        },
    decreases changes.len(),
{
    if changes.len() == 0 {
        assert(forall|k: Seq<char>| !doc_has_key(changes, k));
    } else {
        let k0 = changes[0].0;
        let v0 = changes[0].1;
        let d1 = doc_set(d, k0, v0);
        lemma_doc_set(d, k0, v0);
        lemma_head_key_not_in_tail(changes);
        lemma_doc_apply(d1, changes.skip(1));
        assert forall|k: Seq<char>| #[trigger] doc_lookup(doc_apply(d, changes), k)
            == if doc_has_key(changes, k) {
            doc_lookup(changes, k)
        } else {
            doc_lookup(d, k)
        } by {
            if k == k0 {
                assert(!doc_has_key(changes.skip(1), k));
                assert(doc_lookup(doc_apply(d1, changes.skip(1)), k) == doc_lookup(d1, k));
            } else {
                lemma_tail_lookup(changes, k);
                if doc_has_key(changes, k) {
                    let j = doc_index_of(changes, k);
                    assert(changes[j].0 == k);
                    assert(j != 0);
                    assert(changes.skip(1)[j - 1] == changes[j]);
                    assert(doc_has_key(changes.skip(1), k));
                }
            }
        }
    }
}

/// A schemaless record of key-value entries with pairwise distinct keys.
pub struct Document {
    pub entries: Vec<(String, Value)>,
}

impl View for Document {
    type V = DocView;

    open spec fn view(&self) -> DocView {
        self.entries@.map_values(|e: (String, Value)| (e.0@, e.1@))
    }
}

impl Document {
    /// A document's keys are pairwise distinct.
    pub open spec fn wf(&self) -> bool {
        doc_wf(self@)
    }

    /// An empty document.
    pub fn new() -> (r: Document)
        ensures
            r@ == Seq::<(Seq<char>, ValueV)>::empty(),
            r.wf(),
    {
        let r = Document { entries: Vec::new() };
        proof {
            assert(r@ =~= Seq::<(Seq<char>, ValueV)>::empty());
        }
        r
    }

    /// The position of the entry under a key, if any.
    fn index_of(&self, key: &str) -> (r: Option<usize>)
        requires
            self.wf(),
        ensures
            r is Some <==> doc_has_key(self@, key@),
            r is Some ==> r->0 < self@.len() && self@[r->0 as int].0 == key@ && r->0 as int
                == doc_index_of(self@, key@),
    {
        let k = key.to_owned();
        let mut i: usize = 0;
        while i < self.entries.len()
            invariant
                self.wf(),
                i <= self.entries.len(),
                k@ == key@,
                forall|j: int| 0 <= j < i ==> (#[trigger] self@[j]).0 != key@,
            decreases self.entries.len() - i,
        {
            if self.entries[i].0 == k {
                proof {
                    assert(self@[i as int].0 == key@);
                    assert(doc_has_key(self@, key@));
                    let j = doc_index_of(self@, key@);
                    assert(0 <= j < self@.len() && self@[j].0 == key@);
                    assert(j == i as int);
                }
                return Some(i);
            }
            i = i + 1;
        }
        proof {
            if doc_has_key(self@, key@) {
                let j = doc_index_of(self@, key@);
                assert(0 <= j < self@.len() && self@[j].0 == key@);
            }
        }
        None
    }

    /// The value held under a key, if any.
    pub fn get(&self, key: &str) -> (r: Option<&Value>)
        requires
            self.wf(),
        ensures
            r is Some <==> doc_has_key(self@, key@),
            r is Some ==> Some(r->0@) == doc_lookup(self@, key@),
            r is None ==> doc_lookup(self@, key@) is None,
    {
        match self.index_of(key) {
            Some(i) => Some(&self.entries[i].1),
            None => None,
        }
    }

    /// Set one field: rewrite the entry in place if the key is present,
    /// append it otherwise.
    pub fn set(&mut self, key: &str, value: Value)
        requires
            old(self).wf(),
        ensures
            final(self)@ == doc_set(old(self)@, key@, value@),
            final(self).wf(),
    {
        proof {
            lemma_doc_set(self@, key@, value@);
        }
        let k = key.to_owned();
        match self.index_of(key) {
            Some(i) => {
                self.entries.set(i, (k, value));
                proof {
                    assert(self@ =~= doc_set(old(self)@, key@, value@));
                }
            },
            None => {
                self.entries.push((k, value));
                proof {
                    assert(self@ =~= doc_set(old(self)@, key@, value@));
                }
            },
        }
    }

    /// Apply a patch: set each of its fields in order.
    pub fn apply_set(&mut self, changes: &Document)
        requires
            old(self).wf(),
        ensures
            final(self)@ == doc_apply(old(self)@, changes@),
            final(self).wf(),
    {
        proof {
            assert(changes@.skip(0) =~= changes@);
        }
        let mut i: usize = 0;
        while i < changes.entries.len()
            invariant
                self.wf(),
                i <= changes.entries.len(),
                doc_apply(old(self)@, changes@) == doc_apply(self@, changes@.skip(i as int)),
            decreases changes.entries.len() - i,
        {
            let ghost pre = self@;
            let key_ref: &String = &changes.entries[i].0;
            let val = changes.entries[i].1.duplicate();
            self.set(key_ref.as_str(), val);
            proof {
                assert(changes@.skip(i as int)[0] == changes@[i as int]);
                assert(changes@.skip(i as int).skip(1) =~= changes@.skip(i + 1 as int));
                assert(doc_apply(pre, changes@.skip(i as int)) == doc_apply(
                    doc_set(pre, changes@[i as int].0, changes@[i as int].1),
                    changes@.skip(i + 1 as int),
                ));
            }
            i = i + 1;
        }
        proof {
            assert(changes@.skip(changes@.len() as int) =~= Seq::<(Seq<char>, ValueV)>::empty());
        }
    }

    /// An owned copy of this document.
    pub fn duplicate(&self) -> (r: Document)
        ensures
            r@ == self@,
    {
        let mut entries: Vec<(String, Value)> = Vec::new();
        let mut i: usize = 0;
        while i < self.entries.len()
            invariant
                i <= self.entries.len(),
                entries@.len() == i,
                forall|j: int| 0 <= j < i ==> ((#[trigger] entries@[j]).0@, entries@[j].1@)
                    == self@[j],
            decreases self.entries.len() - i,
        {
            let key = self.entries[i].0.clone();
            let val = self.entries[i].1.duplicate();
            entries.push((key, val));
            i = i + 1;
        }
        let r = Document { entries };
        proof {
            assert(r@ =~= self@);
        }
        r
    }
}

} // verus!
