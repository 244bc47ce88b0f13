//! The category records and their codec: the lossless mapping from an
//! insertable record to a store document, the validating decode back to a
//! typed record, and the sparse patch derived from an edit request.

use vstd::prelude::*;

use crate::document::{doc_has_key, doc_lookup, doc_wf, DocView, Document, Value, ValueV};
use crate::error::{ApiError, DecodeField};
use crate::object_id::ObjectId;

verus! {

/// A stored category: the store-assigned identity plus its fields.
#[derive(Debug)]
pub struct CategoryModel {
    pub id: ObjectId,
    pub name: String,
    pub description: String,
}

/// The mathematical form of a stored category.
pub struct CategoryV {
    pub id: Seq<u8>,
    pub name: Seq<char>,
    pub description: Seq<char>,
}

impl View for CategoryModel {
    type V = CategoryV;

    open spec fn view(&self) -> CategoryV {
        CategoryV { id: self.id@, name: self.name@, description: self.description@ }
    }
}

/// A category without an identity, used only as insert input.
pub struct InsertableCategoryModel {
    pub name: String,
    pub description: String,
}

/// A sparse patch: only present fields are written.
pub struct EditableCategoryModel {
    pub name: Option<String>,
    pub description: Option<String>,
}

/// The document encoding an insertable category: exactly its two fields, in
/// a fixed order.
pub open spec fn insertable_doc(name: Seq<char>, description: Seq<char>) -> DocView {
    seq![("name"@, ValueV::Text(name)), ("description"@, ValueV::Text(description))]
}

/// The document a stored category takes: its encoding plus the assigned
/// identifier.
pub open spec fn stored_doc(name: Seq<char>, description: Seq<char>, id: Seq<u8>) -> DocView {
    insertable_doc(name, description).push(("_id"@, ValueV::Id(id)))
}

/// Whether a document decodes to a category: each required field present and
/// of the right shape.
pub open spec fn decodable(d: DocView) -> bool {
    &&& doc_lookup(d, "_id"@) matches Some(ValueV::Id(_))
    &&& doc_lookup(d, "name"@) matches Some(ValueV::Text(_))
    &&& doc_lookup(d, "description"@) matches Some(ValueV::Text(_))
}

/// The category a decodable document denotes.
pub open spec fn decoded(d: DocView) -> CategoryV {
    CategoryV {
        id: match doc_lookup(d, "_id"@) {
            Some(ValueV::Id(b)) => b,
            _ => Seq::empty(),
        },
        name: match doc_lookup(d, "name"@) {
            Some(ValueV::Text(s)) => s,
            _ => Seq::empty(),
        },
        description: match doc_lookup(d, "description"@) {
            Some(ValueV::Text(s)) => s,
            _ => Seq::empty(),
        },
    }
}

/// The document keys of a category are pairwise distinct.
pub proof fn lemma_category_keys_distinct()
    ensures
        "_id"@ != "name"@,
        "_id"@ != "description"@,
        "name"@ != "description"@,
{
    reveal_strlit("_id");
    reveal_strlit("name");
    reveal_strlit("description");
    assert("_id"@.len() == 3);
    assert("name"@.len() == 4);
    assert("description"@.len() == 11);
}

impl InsertableCategoryModel {
    /// Encode this record as a store document: a lossless field-by-field
    /// mapping, with no identifier and no defaults.
    pub fn to_document(&self) -> (r: Document)
        ensures
            r@ == insertable_doc(self.name@, self.description@),
            r.wf(),
            !doc_has_key(r@, "_id"@),
    {
        let mut d = Document::new();
        d.set("name", Value::Text(self.name.clone()));
        d.set("description", Value::Text(self.description.clone()));
        proof {
            lemma_category_keys_distinct();
            assert(d@ =~= insertable_doc(self.name@, self.description@));
            if doc_has_key(d@, "_id"@) {
                let i = crate::document::doc_index_of(d@, "_id"@);
                assert(0 <= i < d@.len() && d@[i].0 == "_id"@);
            }
        }
        d
    }
}

/// Decode a store document into a typed category. Fails with the first
/// required field, in the order identifier, name, description, that is
/// absent or of the wrong shape; nothing is silently defaulted.
pub fn from_document(d: &Document) -> (r: Result<CategoryModel, ApiError>)
    requires
        d.wf(),
    ensures
        r is Ok <==> decodable(d@),
        r is Ok ==> r->Ok_0@ == decoded(d@),
        r is Err ==> r->Err_0 == ApiError::Decode(spec_decode_failure(d@)),
        r is Err ==> r->Err_0 matches ApiError::Decode(_),
{
    let id = match d.get("_id") {
        Some(Value::Id(oid)) => oid.duplicate(),
        _ => {
            return Err(ApiError::Decode(DecodeField::Id));
        },
    };
    let name = match d.get("name") {
        Some(Value::Text(s)) => s.clone(),
        _ => {
            return Err(ApiError::Decode(DecodeField::Name));
        },
    };
    let description = match d.get("description") {
        Some(Value::Text(s)) => s.clone(),
        _ => {
            return Err(ApiError::Decode(DecodeField::Description));
        },
    };
    Ok(CategoryModel { id, name, description })
}

/// The first required field, in decode order, that a non-decodable document
/// is missing or holds in the wrong shape.
pub open spec fn spec_decode_failure(d: DocView) -> DecodeField {
    if !(doc_lookup(d, "_id"@) matches Some(ValueV::Id(_))) {
        DecodeField::Id
    } else if !(doc_lookup(d, "name"@) matches Some(ValueV::Text(_))) {
        DecodeField::Name
    } else {
        DecodeField::Description
    }
}

/// The patch document an edit request denotes: a key for each present field,
/// name first, and nothing else.
pub open spec fn changes_doc(name: Option<Seq<char>>, description: Option<Seq<char>>) -> DocView {
    (match name {
        Some(n) => seq![("name"@, ValueV::Text(n))],
        None => Seq::<(Seq<char>, ValueV)>::empty(),
    }) + (match description {
        Some(s) => seq![("description"@, ValueV::Text(s))],
        None => Seq::<(Seq<char>, ValueV)>::empty(),
    })
}

/// The view of an optional string field.
pub open spec fn opt_view(o: Option<String>) -> Option<Seq<char>> {
    match o {
        Some(s) => Some(s@),
        None => None,
    }
}

impl EditableCategoryModel {
    /// The patch document of this edit request: only the fields actually
    /// supplied, and an empty document when none is.
    pub fn get_changes(&self) -> (r: Document)
        ensures
            r@ == changes_doc(opt_view(self.name), opt_view(self.description)),
            r.wf(),
            !doc_has_key(r@, "_id"@),
    {
        let mut d = Document::new();
        if let Some(n) = &self.name {
            d.set("name", Value::Text(n.clone()));
        }
        if let Some(s) = &self.description {
            d.set("description", Value::Text(s.clone()));
        }
        proof {
            lemma_category_keys_distinct();
            assert(d@ =~= changes_doc(opt_view(self.name), opt_view(self.description)));
            if doc_has_key(d@, "_id"@) {
                let i = crate::document::doc_index_of(d@, "_id"@);
                assert(0 <= i < d@.len() && d@[i].0 == "_id"@);
            }
        }
        d
    }
}

/// Round trip: a stored insert decodes back to exactly the fields that were
/// inserted, under the assigned identifier.
pub proof fn lemma_round_trip(name: Seq<char>, description: Seq<char>, id: Seq<u8>)
    ensures
        doc_wf(stored_doc(name, description, id)),
        decodable(stored_doc(name, description, id)),
        decoded(stored_doc(name, description, id)) == (CategoryV { id, name, description }),
{
    lemma_category_keys_distinct();
    let d = stored_doc(name, description, id);
    assert(d[0] == ("name"@, ValueV::Text(name)));
    assert(d[1] == ("description"@, ValueV::Text(description)));
    assert(d[2] == ("_id"@, ValueV::Id(id)));
    assert(doc_has_key(d, "name"@));
    assert(doc_has_key(d, "description"@));
    assert(doc_has_key(d, "_id"@));
    assert(crate::document::doc_index_of(d, "name"@) == 0);
    assert(crate::document::doc_index_of(d, "description"@) == 1);
    assert(crate::document::doc_index_of(d, "_id"@) == 2);
}

} // verus!
