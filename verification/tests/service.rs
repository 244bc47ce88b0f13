use category_api::category::{EditableCategoryModel, InsertableCategoryModel};
use category_api::document::Value;
use category_api::error::ApiError;
use category_api::object_id::ObjectId;
use category_api::services::{CategoriesService, ImagesService, Services};
use category_api::store::Collection;
use category_api::{ErrRes, Res};

fn insertable(name: &str, description: &str) -> InsertableCategoryModel {
    InsertableCategoryModel { name: name.to_string(), description: description.to_string() }
}

fn fresh_service() -> CategoriesService {
    CategoriesService::new(Collection::new())
}

#[test]
fn insert_then_find_one_round_trips() {
    let mut svc = fresh_service();
    let hex = svc.insert(insertable("Shoes", "Footwear"));
    let oid = ObjectId::parse(&hex).expect("the reported identifier is well-formed");
    let c = svc.find_one(&oid).expect("the inserted category is found");
    assert_eq!(c.name, "Shoes");
    assert_eq!(c.description, "Footwear");
    assert_eq!(c.id.to_hex(), hex);
}

#[test]
fn find_one_reports_not_found() {
    let svc = fresh_service();
    let oid = ObjectId::mint(9);
    assert_eq!(svc.find_one(&oid).unwrap_err(), ApiError::NotFound);
}

#[test]
fn find_all_lists_in_insertion_order() {
    let mut svc = fresh_service();
    svc.insert(insertable("A", "first"));
    svc.insert(insertable("B", "second"));
    let all = svc.find_all();
    assert_eq!(all.len(), 2);
    assert_eq!(all[0].name, "A");
    assert_eq!(all[1].name, "B");
}

#[test]
fn insert_many_reports_the_count() {
    let mut svc = fresh_service();
    let n = svc.insert_many(vec![
        insertable("A", "first"),
        insertable("B", "second"),
        insertable("C", "third"),
    ]);
    assert_eq!(n, 3);
    let all = svc.find_all();
    assert_eq!(all.len(), 3);
    assert_eq!(all[2].name, "C");
}

#[test]
fn delete_one_twice_succeeds_and_changes_nothing_the_second_time() {
    let mut svc = fresh_service();
    let hex = svc.insert(insertable("A", "first"));
    svc.insert(insertable("B", "second"));
    let oid = ObjectId::parse(&hex).unwrap();
    svc.delete_one(&oid);
    assert_eq!(svc.find_all().len(), 1);
    let kept = svc.col.docs[0].duplicate();
    svc.delete_one(&oid);
    assert_eq!(svc.find_all().len(), 1);
    assert_eq!(svc.col.docs[0].entries.len(), kept.entries.len());
    assert_eq!(svc.find_all()[0].name, "B");
}

#[test]
fn delete_one_of_a_missing_identifier_succeeds() {
    let mut svc = fresh_service();
    svc.insert(insertable("A", "first"));
    svc.delete_one(&ObjectId::mint(77));
    assert_eq!(svc.find_all().len(), 1);
}

#[test]
fn partial_update_touches_only_the_present_field() {
    let mut svc = fresh_service();
    let hex = svc.insert(insertable("A", "B"));
    let oid = ObjectId::parse(&hex).unwrap();
    svc.update_one(
        &oid,
        EditableCategoryModel { name: Some("C".to_string()), description: None },
    );
    let c = svc.find_one(&oid).unwrap();
    assert_eq!(c.name, "C");
    assert_eq!(c.description, "B");
    assert_eq!(c.id.to_hex(), hex);
}

#[test]
fn empty_patch_leaves_the_stored_document_unchanged() {
    let mut svc = fresh_service();
    let hex = svc.insert(insertable("A", "B"));
    let oid = ObjectId::parse(&hex).unwrap();
    let before = svc.col.docs[0].duplicate();
    svc.update_one(&oid, EditableCategoryModel { name: None, description: None });
    let after = &svc.col.docs[0];
    assert_eq!(after.entries.len(), before.entries.len());
    for i in 0..before.entries.len() {
        assert_eq!(after.entries[i].0, before.entries[i].0);
        match (&after.entries[i].1, &before.entries[i].1) {
            (Value::Text(a), Value::Text(b)) => assert_eq!(a, b),
            (Value::Id(a), Value::Id(b)) => assert!(a.eq_id(b)),
            (Value::Stamp(a), Value::Stamp(b)) => assert_eq!(a, b),
            _ => panic!("the entry changed shape"),
        }
    }
}

#[test]
fn update_of_a_missing_identifier_succeeds_and_changes_nothing() {
    let mut svc = fresh_service();
    svc.insert(insertable("A", "B"));
    svc.update_one(
        &ObjectId::mint(77),
        EditableCategoryModel { name: Some("C".to_string()), description: None },
    );
    assert_eq!(svc.find_all()[0].name, "A");
}

#[test]
fn delete_all_then_list_all_is_empty() {
    let mut svc = fresh_service();
    svc.insert_many(vec![insertable("A", "first"), insertable("B", "second")]);
    let deleted = svc.delete_all();
    assert_eq!(deleted, 2);
    assert_eq!(svc.find_all().len(), 0);
}

#[test]
fn generate_mints_distinct_identifiers_and_rows() {
    let mut imgs = ImagesService::new(Collection::new());
    let a = imgs.generate();
    let b = imgs.generate();
    assert!(!a.eq_id(&b));
    assert_eq!(imgs.col.docs.len(), 2);
    for d in imgs.col.docs.iter() {
        assert!(matches!(d.get("upload_date"), Some(Value::Stamp(_))));
        assert!(matches!(d.get("_id"), Some(Value::Id(_))));
    }
}

#[test]
fn services_builds_both_handles() {
    let svcs = Services::new(Collection::new(), Collection::new());
    assert_eq!(svcs.categories.col.docs.len(), 0);
    assert_eq!(svcs.images.col.docs.len(), 0);
}

#[test]
fn envelopes_carry_the_flag() {
    let ok: Res<u64> = Res::build(Some(3), None);
    assert!(ok.success);
    assert_eq!(ok.data, Some(3));
    let err = ErrRes::build(Some("Failed to get categories".to_string()));
    assert!(!err.success);
    assert_eq!(err.msg.as_deref(), Some("Failed to get categories"));
}
