use category_api::category::{
    from_document, CategoryModel, EditableCategoryModel, InsertableCategoryModel,
};
use category_api::document::{Document, Value};
use category_api::error::{ApiError, DecodeField};
use category_api::object_id::ObjectId;

fn insertable(name: &str, description: &str) -> InsertableCategoryModel {
    InsertableCategoryModel { name: name.to_string(), description: description.to_string() }
}

fn text_of(v: &Value) -> &str {
    match v {
        Value::Text(s) => s.as_str(),
        _ => panic!("expected a text value"),
    }
}

#[test]
fn to_document_holds_exactly_the_two_fields() {
    let d = insertable("Shoes", "Footwear").to_document();
    assert_eq!(d.entries.len(), 2);
    assert_eq!(d.entries[0].0, "name");
    assert_eq!(text_of(&d.entries[0].1), "Shoes");
    assert_eq!(d.entries[1].0, "description");
    assert_eq!(text_of(&d.entries[1].1), "Footwear");
    assert!(d.get("_id").is_none());
}

#[test]
fn decode_rejects_missing_id() {
    let d = insertable("Shoes", "Footwear").to_document();
    match from_document(&d) {
        Err(e) => assert_eq!(e, ApiError::Decode(DecodeField::Id)),
        Ok(_) => panic!("a document without an identifier must not decode"),
    }
}

#[test]
fn decode_rejects_missing_name() {
    let mut d = Document::new();
    d.set("_id", Value::Id(ObjectId::mint(1)));
    d.set("description", Value::Text("Footwear".to_string()));
    match from_document(&d) {
        Err(e) => assert_eq!(e, ApiError::Decode(DecodeField::Name)),
        Ok(_) => panic!("a document without a name must not decode"),
    }
}

#[test]
fn decode_rejects_wrong_shape() {
    let mut d = Document::new();
    d.set("_id", Value::Id(ObjectId::mint(1)));
    d.set("name", Value::Text("Shoes".to_string()));
    d.set("description", Value::Stamp(7));
    match from_document(&d) {
        Err(e) => assert_eq!(e, ApiError::Decode(DecodeField::Description)),
        Ok(_) => panic!("a non-text description must not decode"),
    }
}

#[test]
fn decode_round_trips_a_stored_document() {
    let mut d = insertable("Shoes", "Footwear").to_document();
    let oid = ObjectId::mint(5);
    d.set("_id", Value::Id(oid.duplicate()));
    let c: CategoryModel = from_document(&d).expect("a stored document decodes");
    assert!(c.id.eq_id(&oid));
    assert_eq!(c.name, "Shoes");
    assert_eq!(c.description, "Footwear");
}

#[test]
fn get_changes_keeps_only_present_fields() {
    let both = EditableCategoryModel {
        name: Some("A".to_string()),
        description: Some("B".to_string()),
    };
    let d = both.get_changes();
    assert_eq!(d.entries.len(), 2);
    assert_eq!(d.entries[0].0, "name");
    assert_eq!(d.entries[1].0, "description");

    let name_only = EditableCategoryModel { name: Some("A".to_string()), description: None };
    let d = name_only.get_changes();
    assert_eq!(d.entries.len(), 1);
    assert_eq!(d.entries[0].0, "name");
    assert_eq!(text_of(&d.entries[0].1), "A");
}

#[test]
fn get_changes_of_an_empty_patch_is_empty() {
    let none = EditableCategoryModel { name: None, description: None };
    assert_eq!(none.get_changes().entries.len(), 0);
}

#[test]
fn hex_of_minted_identifier_is_exact() {
    assert_eq!(ObjectId::mint(0).to_hex(), "000000000000000000000000");
    assert_eq!(ObjectId::mint(258).to_hex(), "000000000000000000000102");
    assert_eq!(ObjectId::mint(u64::MAX).to_hex(), "00000000ffffffffffffffff");
}

#[test]
fn parse_accepts_a_well_formed_identifier() {
    let oid = ObjectId::parse("00000000ffffffffffffff0a").expect("24 hex digits parse");
    assert_eq!(oid.to_hex(), "00000000ffffffffffffff0a");
    let upper = ObjectId::parse("00000000FFFFFFFFFFFFFF0A").expect("upper case digits parse");
    assert_eq!(upper.to_hex(), "00000000ffffffffffffff0a");
}

#[test]
fn parse_rejects_a_bad_identifier() {
    assert_eq!(ObjectId::parse("not-a-valid-id").unwrap_err(), ApiError::InvalidIdentifier);
    assert_eq!(ObjectId::parse("").unwrap_err(), ApiError::InvalidIdentifier);
    assert_eq!(
        ObjectId::parse("00000000ffffffffffffff0").unwrap_err(),
        ApiError::InvalidIdentifier
    );
    assert_eq!(
        ObjectId::parse("g0000000ffffffffffffff0a").unwrap_err(),
        ApiError::InvalidIdentifier
    );
}

#[test]
fn apply_set_rewrites_in_place_and_appends() {
    let mut d = insertable("Shoes", "Footwear").to_document();
    let mut patch = Document::new();
    patch.set("name", Value::Text("Boots".to_string()));
    patch.set("stock", Value::Stamp(3));
    d.apply_set(&patch);
    assert_eq!(d.entries.len(), 3);
    assert_eq!(d.entries[0].0, "name");
    assert_eq!(text_of(&d.entries[0].1), "Boots");
    assert_eq!(d.entries[1].0, "description");
    assert_eq!(text_of(&d.entries[1].1), "Footwear");
    assert_eq!(d.entries[2].0, "stock");
}
