//! The service layer: category operations over a collection, through the
//! codec, and the image service that mints identifiers by inserting a
//! timestamped metadata record. Each operation's contract states the exact
//! collection state it leaves behind.

use vstd::prelude::*;

use crate::category::{
    changes_doc, decodable, decoded, lemma_category_keys_distinct,
    lemma_round_trip, opt_view, stored_doc, CategoryModel, EditableCategoryModel,
    InsertableCategoryModel,
};
use crate::document::{doc_apply, doc_has_key, doc_lookup, DocView, Document, Value, ValueV};
use crate::error::ApiError;
use crate::object_id::{counter_id, hex_of, lemma_counter_id_injective, ObjectId};
use crate::store::{has_id, index_of_id, listed, spec_delete_one, spec_update_one, Collection};

verus! {

/// Whether every document of a collection decodes to a category.
pub open spec fn all_decodable(docs: Seq<DocView>) -> bool {
    forall|i: int| 0 <= i < docs.len() ==> decodable(#[trigger] docs[i])
}

/// The category operations, over the categories collection.
pub struct CategoriesService {
    pub col: Collection,
}

impl CategoriesService {
    /// The collection is well-formed and holds only category documents.
    pub open spec fn wf(&self) -> bool {
        &&& self.col.wf()
        &&& all_decodable(self.col@)
    }

    pub fn new(col: Collection) -> (r: CategoriesService)
        requires
            col.wf(),
            all_decodable(col@),
        ensures
            r.col == col,
            r.wf(),
    {
        CategoriesService { col }
    }

    /// List every category, in store order.
    pub fn find_all(&self) -> (r: Vec<CategoryModel>)
        requires
            self.wf(),
        ensures
            r@.len() == self.col@.len(),
            forall|i: int| 0 <= i < r@.len() ==> (#[trigger] r@[i])@ == listed(self.col@)[i],
    {
        let mut out: Vec<CategoryModel> = Vec::new();
        let mut i: usize = 0;
        while i < self.col.docs.len()
            invariant
                self.wf(),
                i <= self.col.docs.len(),
                out@.len() == i,
                forall|j: int| 0 <= j < i ==> (#[trigger] out@[j])@ == decoded(self.col@[j]),
            decreases self.col.docs.len() - i,
        {
            proof {
                assert(self.col@[i as int] == self.col.docs@[i as int]@);
            }
            match crate::category::from_document(&self.col.docs[i]) {
                Ok(c) => {
                    out.push(c);
                },
                Err(_) => {
                    proof {
                        assert(decodable(self.col@[i as int]));
                        assert(false);
                    }
                },
            }
            i = i + 1;
        }
        out
    }

    /// Point lookup by identifier: the decoded category, or `NotFound` when
    /// no document carries the identifier.
    pub fn find_one(&self, oid: &ObjectId) -> (r: Result<CategoryModel, ApiError>)
        requires
            self.wf(),
        ensures
            r is Ok <==> has_id(self.col@, oid@),
            r is Ok ==> r->Ok_0@ == decoded(self.col@[index_of_id(self.col@, oid@)]),
            r is Err ==> r->Err_0 == ApiError::NotFound,
    {
        match self.col.find_one(oid) {
            Some(doc) => {
                proof {
                    assert(decodable(self.col@[index_of_id(self.col@, oid@)]));
                }
                match crate::category::from_document(doc) {
                    Ok(c) => Ok(c),
                    Err(_) => {
                        proof {
                            assert(false);
                        }
                        Err(ApiError::NotFound)
                    },
                }
            },
            None => Err(ApiError::NotFound),
        }
    }

    /// Insert one category: the store assigns a fresh identifier, appends the
    /// encoded document under it, and the identifier's hex form is returned.
    pub fn insert(&mut self, category: InsertableCategoryModel) -> (r: String)
        requires
            old(self).wf(),
            old(self).col.counter < u64::MAX,
        ensures
            final(self).col@ == old(self).col@.push(
                stored_doc(category.name@, category.description@, counter_id(old(self).col.counter)),
            ),
            r@ == hex_of(counter_id(old(self).col.counter)),
            !has_id(old(self).col@, counter_id(old(self).col.counter)),
            final(self).col.counter == old(self).col.counter + 1,
            final(self).wf(),
    {
        let doc = category.to_document();
        let oid = self.col.insert_one(doc);
        proof {
            assert(self.col@.last() =~= stored_doc(
                category.name@,
                category.description@,
                counter_id(old(self).col.counter),
            ));
            assert(self.col@ =~= old(self).col@.push(
                stored_doc(category.name@, category.description@, counter_id(old(self).col.counter)),
            ));
            lemma_round_trip(
                category.name@,
                category.description@,
                counter_id(old(self).col.counter),
            );
            assert forall|i: int| 0 <= i < self.col@.len() implies decodable(
                #[trigger] self.col@[i],
            ) by {
                if i < old(self).col@.len() {
                    assert(self.col@[i] == old(self).col@[i]);
                }
            }
        }
        oid.to_hex()
    }

    /// Insert a sequence of categories, in order, reporting how many were
    /// inserted. Every insert succeeds here, so the count is the input's
    /// length; against a real store a failure aborts the call without telling
    /// which prefix was committed.
    pub fn insert_many(&mut self, categories: Vec<InsertableCategoryModel>) -> (r: usize)
        requires
            old(self).wf(),
            old(self).col.counter + categories@.len() <= u64::MAX,
        ensures
            r == categories@.len(),
            final(self).col@.len() == old(self).col@.len() + categories@.len(),
            forall|i: int| 0 <= i < old(self).col@.len() ==> #[trigger] final(self).col@[i]
                == old(self).col@[i],
            forall|i: int| 0 <= i < categories@.len() ==> #[trigger] final(self).col@[old(self).col@.len() + i] == stored_doc(
                categories@[i].name@,
                categories@[i].description@,
                counter_id((old(self).col.counter + i) as u64),
            ),
            final(self).col.counter == old(self).col.counter + categories@.len(),
            final(self).wf(),
    {
        let mut i: usize = 0;
        while i < categories.len()
            invariant
                self.wf(),
                i <= categories@.len(),
                old(self).col.counter + categories@.len() <= u64::MAX,
                self.col.counter == old(self).col.counter + i,
                self.col@.len() == old(self).col@.len() + i,
                forall|j: int| 0 <= j < old(self).col@.len() ==> #[trigger] self.col@[j] == old(self).col@[j],
                forall|j: int| 0 <= j < i ==> #[trigger] self.col@[old(self).col@.len() + j]
                    == stored_doc(
                    categories@[j].name@,
                    categories@[j].description@,
                    counter_id((old(self).col.counter + j) as u64),
                ),
            decreases categories@.len() - i,
        {
            let c = InsertableCategoryModel {
                name: categories[i].name.clone(),
                description: categories[i].description.clone(),
            };
            self.insert(c);
            i = i + 1;
        }
        i
    }

    /// Delete by identifier: removes the matching category. Succeeds, with no
    /// error, whether or not the identifier was present.
    pub fn delete_one(&mut self, oid: &ObjectId)
        requires
            old(self).wf(),
        ensures
            final(self).col@ == spec_delete_one(old(self).col@, oid@),
            !has_id(final(self).col@, oid@),
            final(self).col.counter == old(self).col.counter,
            final(self).wf(),
    {
        self.col.delete_one(oid);
        proof {
            assert forall|i: int| 0 <= i < self.col@.len() implies decodable(
                #[trigger] self.col@[i],
            ) by {
                if has_id(old(self).col@, oid@) {
                    let k = index_of_id(old(self).col@, oid@);
                    if i < k {
                        assert(self.col@[i] == old(self).col@[i]);
                    } else {
                        assert(self.col@[i] == old(self).col@[i + 1]);
                    }
                }
            }
        }
    }

    /// Delete every category, reporting how many there were.
    pub fn delete_all(&mut self) -> (r: u64)
        requires
            old(self).wf(),
        ensures
            r == old(self).col@.len(),
            final(self).col@ == Seq::<DocView>::empty(),
            final(self).wf(),
    {
        self.col.delete_all()
    }

    /// Patch by identifier: rewrites only the fields the edit request
    /// supplies, leaves absent fields and the identity untouched, and leaves
    /// the whole collection unchanged when the patch is empty or the
    /// identifier matches nothing. Succeeds, with no error, in every case.
    pub fn update_one(&mut self, oid: &ObjectId, changes: EditableCategoryModel)
        requires
            old(self).wf(),
        ensures
            final(self).col@ == spec_update_one(
                old(self).col@,
                oid@,
                changes_doc(opt_view(changes.name), opt_view(changes.description)),
            ),
            !has_id(old(self).col@, oid@) ==> final(self).col@ == old(self).col@,
            changes.name is None && changes.description is None ==> final(self).col@ == old(self).col@,
            has_id(old(self).col@, oid@) ==> {
                let i = index_of_id(old(self).col@, oid@);
                &&& forall|j: int| 0 <= j < old(self).col@.len() && j != i ==> #[trigger] final(self).col@[j] == old(self).col@[j]
                &&& doc_lookup(final(self).col@[i], "name"@) == (match changes.name {
                    Some(n) => Some(ValueV::Text(n@)),
                    None => doc_lookup(old(self).col@[i], "name"@),
                })
                &&& doc_lookup(final(self).col@[i], "description"@) == (match changes.description {
                    Some(s) => Some(ValueV::Text(s@)),
                    None => doc_lookup(old(self).col@[i], "description"@),
                })
                &&& doc_lookup(final(self).col@[i], "_id"@) == doc_lookup(
                    old(self).col@[i],
                    "_id"@,
                )
            },
            final(self).col.counter == old(self).col.counter,
            final(self).wf(),
    {
        let cd = changes.get_changes();
        proof {
            lemma_category_keys_distinct();
        }
        self.col.update_one(oid, &cd);
        proof {
            let ch = changes_doc(opt_view(changes.name), opt_view(changes.description));
            if changes.name is None && changes.description is None {
                assert(ch =~= Seq::<(Seq<char>, ValueV)>::empty());
                if has_id(old(self).col@, oid@) {
                    let i = index_of_id(old(self).col@, oid@);
                    assert(doc_apply(old(self).col@[i], ch) == old(self).col@[i]);
                    assert(self.col@ =~= old(self).col@);
                }
            }
            if has_id(old(self).col@, oid@) {
                let i = index_of_id(old(self).col@, oid@);
                let pre = old(self).col@[i];
                crate::document::lemma_doc_apply(pre, ch);
                let post = doc_apply(pre, ch);
                assert(self.col@[i] == post);
                if changes.name is Some {
                    assert(ch[0] == ("name"@, ValueV::Text(changes.name->0@)));
                    assert(doc_has_key(ch, "name"@));
                    let j = crate::document::doc_index_of(ch, "name"@);
                    assert(0 <= j < ch.len() && ch[j].0 == "name"@);
                    assert(j == 0);
                } else {
                    if doc_has_key(ch, "name"@) {
                        let j = crate::document::doc_index_of(ch, "name"@);
                        assert(0 <= j < ch.len() && ch[j].0 == "name"@);
                    }
                }
                if changes.description is Some {
                    let j0: int = if changes.name is Some {
                        1
                    } else {
                        0
                    };
                    assert(ch[j0] == ("description"@, ValueV::Text(changes.description->0@)));
                    assert(doc_has_key(ch, "description"@));
                    let j = crate::document::doc_index_of(ch, "description"@);
                    assert(0 <= j < ch.len() && ch[j].0 == "description"@);
                    assert(j == j0);
                } else {
                    if doc_has_key(ch, "description"@) {
                        let j = crate::document::doc_index_of(ch, "description"@);
                        assert(0 <= j < ch.len() && ch[j].0 == "description"@);
                    }
                }
                if doc_has_key(ch, "_id"@) {
                    let j = crate::document::doc_index_of(ch, "_id"@);
                    assert(0 <= j < ch.len() && ch[j].0 == "_id"@);
                }
                assert forall|j: int| 0 <= j < self.col@.len() implies decodable(
                    #[trigger] self.col@[j],
                ) by {
                    if j != i {
                        assert(self.col@[j] == old(self).col@[j]);
                    }
                }
            }
        }
    }
}

/// An image's metadata record: its store-assigned identity and the upload
/// timestamp, in milliseconds.
pub struct Image {
    pub id: ObjectId,
    pub upload_date: i64,
}

/// Relies on chrono's `Utc::now` and `DateTime::timestamp_millis`: the
/// current time, in milliseconds since the epoch. Nothing is promised of the
/// value; it depends on the clock.
#[verifier::external_body]
fn current_millis() -> i64 {
    chrono::Utc::now().timestamp_millis()
}

/// The image service: mints identifiers by inserting timestamped metadata
/// records into the images collection.
pub struct ImagesService {
    pub col: Collection,
}

impl ImagesService {
    pub open spec fn wf(&self) -> bool {
        self.col.wf()
    }

    pub fn new(col: Collection) -> (r: ImagesService)
        requires
            col.wf(),
        ensures
            r.col == col,
            r.wf(),
    {
        ImagesService { col }
    }

    /// Mint a fresh identifier: insert a metadata record stamped with the
    /// current time and return the identifier the store assigned. The
    /// identifier was carried by no earlier record, so two calls always
    /// yield two distinct identifiers and two distinct records.
    pub fn generate(&mut self) -> (r: ObjectId)
        requires
            old(self).wf(),
            old(self).col.counter < u64::MAX,
        ensures
            r@ == counter_id(old(self).col.counter),
            r.wf(),
            !has_id(old(self).col@, r@),
            exists|t: i64|
                final(self).col@ == old(self).col@.push(
                    seq![("upload_date"@, ValueV::Stamp(t)), ("_id"@, ValueV::Id(r@))],
                ),
            final(self).col@.len() == old(self).col@.len() + 1,
            final(self).col.counter == old(self).col.counter + 1,
            final(self).wf(),
    {
        let t = current_millis();
        let mut d = Document::new();
        d.set("upload_date", Value::Stamp(t));
        proof {
            assert(d@ =~= seq![("upload_date"@, ValueV::Stamp(t))]);
            if doc_has_key(d@, "_id"@) {
                let j = crate::document::doc_index_of(d@, "_id"@);
                assert(0 <= j < d@.len() && d@[j].0 == "_id"@);
                reveal_strlit("_id");
                reveal_strlit("upload_date");
                assert("_id"@.len() == 3 && "upload_date"@.len() == 11);
            }
        }
        let oid = self.col.insert_one(d);
        proof {
            assert(d@.push(("_id"@, ValueV::Id(oid@))) =~= seq![
                ("upload_date"@, ValueV::Stamp(t)),
                ("_id"@, ValueV::Id(oid@)),
            ]);
        }
        oid
    }
}

/// Two successive mints always assign distinct identifiers: the counter has
/// moved on, and distinct counters mint distinct identifiers.
pub proof fn lemma_generate_twice_distinct(c: u64)
    requires
        c < u64::MAX,
    ensures
        counter_id(c) != counter_id((c + 1) as u64),
{
    if counter_id(c) == counter_id((c + 1) as u64) {
        lemma_counter_id_injective(c, (c + 1) as u64);
    }
}

/// The service handles, built over the two collections once at startup and
/// shared by every request.
pub struct Services {
    pub categories: CategoriesService,
    pub images: ImagesService,
}

impl Services {
    pub fn new(categories: Collection, images: Collection) -> (r: Services)
        requires
            categories.wf(),
            all_decodable(categories@),
            images.wf(),
        ensures
            r.categories.col == categories,
            r.images.col == images,
            r.categories.wf(),
            r.images.wf(),
    {
        Services {
            categories: CategoriesService::new(categories),
            images: ImagesService::new(images),
        }
    }
}

} // verus!
