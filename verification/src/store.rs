//! The document collection model: an ordered store of documents, each under a
//! unique, store-assigned identifier minted from an insertion counter. The
//! operations follow the store's per-document semantics: point lookups match
//! on the identifier, deletes of a missing identifier succeed and change
//! nothing, and updates rewrite only the fields of the given patch.

use vstd::prelude::*;

use crate::document::{
    doc_apply, doc_has_key, doc_lookup, doc_wf, DocView, Document, Value, ValueV,
};
use crate::object_id::{counter_id, lemma_counter_id_injective, ObjectId};

verus! {

/// The mathematical form of a collection: its documents in store order.
pub type ColView = Seq<DocView>;

/// Whether a collection is well-formed: every document has distinct keys and
/// carries an identifier, and no two documents share one.
pub open spec fn col_wf(docs: ColView) -> bool {
    &&& forall|i: int| 0 <= i < docs.len() ==> doc_wf(#[trigger] docs[i])
    &&& forall|i: int| 0 <= i < docs.len() ==> (doc_lookup(#[trigger] docs[i], "_id"@) matches Some(
        ValueV::Id(_),
    ))
    &&& forall|i: int, j: int|
        0 <= i < docs.len() && 0 <= j < docs.len() && i != j ==> doc_lookup(
            #[trigger] docs[i],
            "_id"@,
        ) != doc_lookup(#[trigger] docs[j], "_id"@)
}

/// Whether some document carries the given identifier.
pub open spec fn has_id(docs: ColView, id: Seq<u8>) -> bool {
    exists|i: int| 0 <= i < docs.len() && doc_lookup(#[trigger] docs[i], "_id"@) == Some(
        ValueV::Id(id),
    )
}

/// The position of the document carrying the given identifier.
pub open spec fn index_of_id(docs: ColView, id: Seq<u8>) -> int {
    choose|i: int| 0 <= i < docs.len() && doc_lookup(#[trigger] docs[i], "_id"@) == Some(
        ValueV::Id(id),
    )
}

/// A collection after deleting by identifier: the matching document removed,
/// or unchanged when none matches.
pub open spec fn spec_delete_one(docs: ColView, id: Seq<u8>) -> ColView {
    if has_id(docs, id) {
        docs.remove(index_of_id(docs, id))
    } else {
        docs
    }
}

/// A collection after a field-set update by identifier: the matching document
/// patched, or unchanged when none matches.
pub open spec fn spec_update_one(docs: ColView, id: Seq<u8>, changes: DocView) -> ColView {
    if has_id(docs, id) {
        docs.update(index_of_id(docs, id), doc_apply(docs[index_of_id(docs, id)], changes))
    } else {
        docs
    }
}

/// Deleting by an identifier is idempotent: the first delete leaves no
/// document under that identifier, so deleting again changes nothing. Both
/// deletes succeed: the operation reports no error for a missing identifier.
pub proof fn lemma_delete_one_idempotent(docs: ColView, id: Seq<u8>)
    requires
        col_wf(docs),
    ensures
        spec_delete_one(spec_delete_one(docs, id), id) == spec_delete_one(docs, id),
{
    if has_id(docs, id) {
        let i = index_of_id(docs, id);
        assert(0 <= i < docs.len() && doc_lookup(docs[i], "_id"@) == Some(ValueV::Id(id)));
        let rest = docs.remove(i);
        assert forall|j: int| 0 <= j < rest.len() implies doc_lookup(#[trigger] rest[j], "_id"@)
            != Some(ValueV::Id(id)) by {
            if j < i {
                assert(rest[j] == docs[j]);
            } else {
                assert(rest[j] == docs[j + 1]);
            }
        }
        assert(!has_id(rest, id));
    }
}

/// After deleting every document, listing yields the empty sequence: deleting
/// all leaves the empty collection, and there is nothing left to decode.
pub proof fn lemma_delete_all_then_list_all()
    ensures
        listed(Seq::<DocView>::empty()) == Seq::<crate::category::CategoryV>::empty(),
{
    assert(listed(Seq::<DocView>::empty()) =~= Seq::<crate::category::CategoryV>::empty());
}

/// The categories a collection lists, in store order.
pub open spec fn listed(docs: ColView) -> Seq<crate::category::CategoryV> {
    Seq::new(docs.len(), |i: int| crate::category::decoded(docs[i]))
}

/// An ordered collection of documents, with the counter the next identifier
/// is minted from.
pub struct Collection {
    pub docs: Vec<Document>,
    pub counter: u64,
}

impl View for Collection {
    type V = ColView;

    open spec fn view(&self) -> ColView {
        self.docs@.map_values(|d: Document| d@)
    }
}

impl Collection {
    /// A well-formed collection additionally has every identifier minted from
    /// a counter value below the current one, so the next one is fresh.
    pub open spec fn wf(&self) -> bool {
        &&& col_wf(self@)
        &&& forall|i: int|
            0 <= i < self@.len() ==> exists|n: u64|
                n < self.counter && doc_lookup(#[trigger] self@[i], "_id"@) == Some(
                    ValueV::Id(counter_id(n)),
                )
    }

    /// An empty collection.
    pub fn new() -> (r: Collection)
        ensures
            r@ == Seq::<DocView>::empty(),
            r.counter == 0,
            r.wf(),
    {
        let r = Collection { docs: Vec::new(), counter: 0 };
        proof {
            assert(r@ =~= Seq::<DocView>::empty());
        }
        r
    }

    /// The position of the document carrying an identifier, if any.
    fn find_index(&self, oid: &ObjectId) -> (r: Option<usize>)
        requires
            self.wf(),
        ensures
            r is Some <==> has_id(self@, oid@),
            r is Some ==> r->0 < self@.len() && r->0 as int == index_of_id(self@, oid@),
    {
        let mut i: usize = 0;
        while i < self.docs.len()
            invariant
                self.wf(),
                i <= self.docs.len(),
                forall|j: int| 0 <= j < i ==> doc_lookup(#[trigger] self@[j], "_id"@) != Some(
                    ValueV::Id(oid@),
                ),
            decreases self.docs.len() - i,
        {
            let matches_here = match self.docs[i].get("_id") {
                Some(Value::Id(o)) => o.eq_id(oid),
                _ => false,
            };
            if matches_here {
                proof {
                    assert(doc_lookup(self@[i as int], "_id"@) == Some(ValueV::Id(oid@)));
                    assert(has_id(self@, oid@));
                    let j = index_of_id(self@, oid@);
                    assert(0 <= j < self@.len() && doc_lookup(self@[j], "_id"@) == Some(
                        ValueV::Id(oid@),
                    ));
                    assert(j == i as int);
                }
                return Some(i);
            }
            i = i + 1;
        }
        proof {
            if has_id(self@, oid@) {
                let j = index_of_id(self@, oid@);
                assert(0 <= j < self@.len() && doc_lookup(self@[j], "_id"@) == Some(
                    ValueV::Id(oid@),
                ));
            }
        }
        None
    }

    /// Point lookup: the document under an identifier, if any.
    pub fn find_one(&self, oid: &ObjectId) -> (r: Option<&Document>)
        requires
            self.wf(),
        ensures
            r is Some <==> has_id(self@, oid@),
            r is Some ==> r->0@ == self@[index_of_id(self@, oid@)],
    {
        match self.find_index(oid) {
            Some(i) => Some(&self.docs[i]),
            None => None,
        }
    }

    /// Insert a document without an identity: the store assigns the next
    /// fresh identifier, appends the stamped document, and returns the
    /// identifier.
    pub fn insert_one(&mut self, doc: Document) -> (r: ObjectId)
        requires
            old(self).wf(),
            doc.wf(),
            !doc_has_key(doc@, "_id"@),
            old(self).counter < u64::MAX,
        ensures
            r@ == counter_id(old(self).counter),
            r.wf(),
            final(self)@ == old(self)@.push(doc@.push(("_id"@, ValueV::Id(r@)))),
            final(self).counter == old(self).counter + 1,
            final(self).wf(),
            !has_id(old(self)@, r@),
            doc_wf(doc@.push(("_id"@, ValueV::Id(r@)))),
    {
        let ghost c = self.counter;
        let oid = ObjectId::mint(self.counter);
        let mut d = doc;
        proof {
            crate::document::lemma_doc_set(d@, "_id"@, ValueV::Id(counter_id(c)));
        }
        d.set("_id", Value::Id(oid.duplicate()));
        self.docs.push(d);
        self.counter = self.counter + 1;
        proof {
            assert(self@ =~= old(self)@.push(doc@.push(("_id"@, ValueV::Id(counter_id(c))))));
            let newdoc = doc@.push(("_id"@, ValueV::Id(counter_id(c))));
            assert(doc_lookup(newdoc, "_id"@) == Some(ValueV::Id(counter_id(c))));
            assert forall|i: int|
                0 <= i < old(self)@.len() implies doc_lookup(#[trigger] old(self)@[i], "_id"@)
                != Some(ValueV::Id(counter_id(c))) by {
                let n = choose|n: u64|
                    n < c && doc_lookup(old(self)@[i], "_id"@) == Some(ValueV::Id(counter_id(n)));
                if doc_lookup(old(self)@[i], "_id"@) == Some(ValueV::Id(counter_id(c))) {
                    lemma_counter_id_injective(n, c);
                }
            }
            assert(!has_id(old(self)@, counter_id(c)));
            assert forall|i: int| 0 <= i < self@.len() implies exists|n: u64|
                n < self.counter && doc_lookup(#[trigger] self@[i], "_id"@) == Some(
                    ValueV::Id(counter_id(n)),
                ) by {
                if i < old(self)@.len() {
                    let n = choose|n: u64|
                        n < c && doc_lookup(old(self)@[i], "_id"@) == Some(
                            ValueV::Id(counter_id(n)),
                        );
                    assert(n < self.counter && doc_lookup(self@[i], "_id"@) == Some(
                        ValueV::Id(counter_id(n)),
                    ));
                } else {
                    assert(self@[i] == newdoc);
                    assert(c < self.counter && doc_lookup(self@[i], "_id"@) == Some(
                        ValueV::Id(counter_id(c)),
                    ));
                }
            }
        }
        oid
    }

    /// Delete by identifier: removes the matching document; succeeds and
    /// changes nothing when none matches.
    pub fn delete_one(&mut self, oid: &ObjectId)
        requires
            old(self).wf(),
        ensures
            final(self)@ == spec_delete_one(old(self)@, oid@),
            final(self).counter == old(self).counter,
            final(self).wf(),
            !has_id(final(self)@, oid@),
    {
        match self.find_index(oid) {
            Some(i) => {
                self.docs.remove(i);
                proof {
                    assert(self@ =~= old(self)@.remove(i as int));
                    assert forall|j: int| 0 <= j < self@.len() implies #[trigger] self@[j]
                        == if j < i as int {
                        old(self)@[j]
                    } else {
                        old(self)@[j + 1]
                    } by {}
                    assert forall|j: int| 0 <= j < self@.len() implies doc_lookup(
                        #[trigger] self@[j],
                        "_id"@,
                    ) != Some(ValueV::Id(oid@)) by {
                        if j < i as int {
                            assert(self@[j] == old(self)@[j]);
                        } else {
                            assert(self@[j] == old(self)@[j + 1]);
                        }
                    }
                }
            },
            None => {},
        }
    }

    /// Delete every document, reporting how many there were. Identifiers are
    /// never reused: the counter stands.
    pub fn delete_all(&mut self) -> (r: u64)
        requires
            old(self).wf(),
        ensures
            r == old(self)@.len(),
            final(self)@ == Seq::<DocView>::empty(),
            final(self).counter == old(self).counter,
            final(self).wf(),
    {
        let n = self.docs.len();
        self.docs.clear();
        proof {
            assert(self@ =~= Seq::<DocView>::empty());
        }
        n as u64
    }

    /// Field-set update by identifier: rewrites the patched fields of the
    /// matching document; succeeds and changes nothing when none matches.
    /// The identity field is never part of a patch.
    pub fn update_one(&mut self, oid: &ObjectId, changes: &Document)
        requires
            old(self).wf(),
            changes.wf(),
            !doc_has_key(changes@, "_id"@),
        ensures
            final(self)@ == spec_update_one(old(self)@, oid@, changes@),
            final(self).counter == old(self).counter,
            final(self).wf(),
    {
        match self.find_index(oid) {
            Some(i) => {
                let ghost pre = self@[i as int];
                let mut d = self.docs[i].duplicate();
                d.apply_set(changes);
                self.docs.set(i, d);
                proof {
                    assert(self@ =~= old(self)@.update(
                        i as int,
                        doc_apply(old(self)@[i as int], changes@),
                    ));
                    crate::document::lemma_doc_apply(pre, changes@);
                    assert(doc_lookup(doc_apply(pre, changes@), "_id"@) == doc_lookup(
                        pre,
                        "_id"@,
                    ));
                    assert forall|j: int| 0 <= j < self@.len() implies doc_lookup(
                        #[trigger] self@[j],
                        "_id"@,
                    ) == doc_lookup(old(self)@[j], "_id"@) by {
                        if j != i as int {
                            assert(self@[j] == old(self)@[j]);
                        }
                    }
                }
            },
            None => {},
        }
    }
}

} // verus!
