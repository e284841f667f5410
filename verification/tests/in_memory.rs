use docstore::document::Document;
use docstore::in_memory::InMemoryVectorDb;
use docstore::json::{JsonMap, JsonNumber, JsonValue};
use docstore::vectordb::{VectorDb, VectorDbError};

fn doc(id: Option<&str>, name: Option<&str>, content: &str) -> Document {
    Document::new(content.to_string(), id.map(str::to_string), name.map(str::to_string), None)
}

fn ready(upsert: bool) -> InMemoryVectorDb {
    let mut db = InMemoryVectorDb::new(upsert);
    db.create().unwrap();
    db
}

fn contents(found: &[Document]) -> Vec<String> {
    found.iter().map(|d| d.content.clone()).collect()
}

#[test]
fn a_new_backend_has_no_collection() {
    let db = InMemoryVectorDb::new(false);
    assert_eq!(db.db_exists().unwrap(), false);
    assert!(matches!(db.doc_exists(&doc(Some("1"), None, "c")), Err(VectorDbError::OperationFailed(_))));
    assert!(matches!(db.name_exists("n"), Err(VectorDbError::OperationFailed(_))));
    assert!(matches!(db.id_exists("1"), Err(VectorDbError::OperationFailed(_))));
    assert!(matches!(db.search("c", 10, None), Err(VectorDbError::OperationFailed(_))));
    assert!(matches!(db.keyword_search("c", 10), Err(VectorDbError::OperationFailed(_))));
}

#[test]
fn insert_into_a_missing_collection_fails() {
    let mut db = InMemoryVectorDb::new(true);
    let err = db.insert(&[doc(Some("1"), None, "c")], None).unwrap_err();
    assert_eq!(err.to_string(), "Operation failed: collection does not exist");
    let err = db.upsert(&[doc(Some("1"), None, "c")], None).unwrap_err();
    assert_eq!(err.to_string(), "Operation failed: collection does not exist");
    db.create().unwrap();
    assert_eq!(db.id_exists("1").unwrap(), false);
}

#[test]
fn create_is_idempotent() {
    let mut db = InMemoryVectorDb::new(false);
    db.create().unwrap();
    assert_eq!(db.db_exists().unwrap(), true);
    db.insert(&[doc(Some("1"), None, "kept")], None).unwrap();
    db.create().unwrap();
    assert_eq!(db.db_exists().unwrap(), true);
    assert_eq!(db.id_exists("1").unwrap(), true);
}

#[test]
fn existence_checks_answer_false_for_absent_documents() {
    let mut db = ready(false);
    db.insert(&[doc(Some("1"), Some("first"), "alpha"), doc(None, None, "beta")], None).unwrap();

    assert_eq!(db.id_exists("1").unwrap(), true);
    assert_eq!(db.id_exists("2").unwrap(), false);
    assert_eq!(db.name_exists("first").unwrap(), true);
    assert_eq!(db.name_exists("second").unwrap(), false);

    assert_eq!(db.doc_exists(&doc(Some("1"), None, "other content")).unwrap(), true);
    assert_eq!(db.doc_exists(&doc(Some("9"), None, "alpha")).unwrap(), false);
    assert_eq!(db.doc_exists(&doc(None, None, "beta")).unwrap(), true);
    assert_eq!(db.doc_exists(&doc(None, None, "alpha")).unwrap(), true);
    assert_eq!(db.doc_exists(&doc(None, None, "gamma")).unwrap(), false);
}

#[test]
fn insert_refuses_a_document_that_is_there_already() {
    let mut db = ready(false);
    db.insert(&[doc(Some("1"), None, "alpha")], None).unwrap();

    let err = db.insert(&[doc(Some("2"), None, "beta"), doc(Some("1"), None, "gamma")], None).unwrap_err();
    assert_eq!(err.to_string(), "Operation failed: conflicting identity");
    assert_eq!(db.id_exists("2").unwrap(), false);
    assert_eq!(contents(&db.search("", 10, None).unwrap()), vec!["alpha"]);

    let err = db.insert(&[doc(Some("3"), None, "x"), doc(Some("3"), None, "y")], None).unwrap_err();
    assert!(matches!(err, VectorDbError::OperationFailed(_)));
    assert_eq!(db.id_exists("3").unwrap(), false);

    db.insert(&[], None).unwrap();
    db.insert(&[doc(Some("2"), None, "beta")], None).unwrap();
    assert_eq!(contents(&db.search("", 10, None).unwrap()), vec!["alpha", "beta"]);
}

#[test]
fn upsert_without_the_capability_fails_and_writes_nothing() {
    let mut db = ready(false);
    db.insert(&[doc(Some("1"), None, "alpha")], None).unwrap();
    assert_eq!(db.upsert_available(), false);

    let err = db.upsert(&[doc(Some("1"), None, "changed"), doc(Some("2"), None, "new")], None).unwrap_err();
    assert!(matches!(err, VectorDbError::NotImplemented));
    assert_eq!(err.to_string(), "Operation not implemented");
    assert_eq!(contents(&db.search("", 10, None).unwrap()), vec!["alpha"]);
    assert_eq!(db.id_exists("2").unwrap(), false);

    let mut missing = InMemoryVectorDb::new(false);
    assert!(matches!(missing.upsert(&[], None), Err(VectorDbError::NotImplemented)));
}

#[test]
fn upsert_replaces_by_identity_or_adds() {
    let mut db = ready(true);
    assert_eq!(db.upsert_available(), true);
    db.insert(&[doc(Some("1"), None, "alpha"), doc(Some("2"), None, "beta")], None).unwrap();

    db.upsert(&[doc(Some("1"), None, "alpha two"), doc(Some("3"), None, "gamma")], None).unwrap();
    assert_eq!(contents(&db.search("", 10, None).unwrap()), vec!["alpha two", "beta", "gamma"]);

    db.upsert(&[doc(None, Some("renamed"), "beta")], None).unwrap();
    assert_eq!(contents(&db.search("", 10, None).unwrap()), vec!["alpha two", "beta", "gamma"]);
    assert_eq!(db.id_exists("2").unwrap(), false);
    assert_eq!(db.name_exists("renamed").unwrap(), true);
}

#[test]
fn search_returns_at_most_limit_in_insertion_order() {
    let mut db = ready(false);
    let docs: Vec<Document> = ["red apple", "green pear", "green apple", "apple pie", "plum"]
        .iter()
        .enumerate()
        .map(|(i, c)| doc(Some(&i.to_string()), None, c))
        .collect();
    db.insert(&docs, None).unwrap();

    assert_eq!(contents(&db.search("apple", 10, None).unwrap()), vec!["red apple", "green apple", "apple pie"]);
    assert_eq!(contents(&db.search("apple", 2, None).unwrap()), vec!["red apple", "green apple"]);
    assert_eq!(contents(&db.search("apple", 3, None).unwrap()).len(), 3);
    assert!(db.search("apple", 0, None).unwrap().is_empty());
    assert!(db.search("cherry", 10, None).unwrap().is_empty());
    assert_eq!(db.search("", 4, None).unwrap().len(), 4);
    assert_eq!(contents(&db.keyword_search("green", 1).unwrap()), vec!["green pear"]);
    for limit in 0..8u32 {
        assert!(db.search("a", limit, None).unwrap().len() <= limit as usize);
    }
}

#[test]
fn filters_narrow_the_search() {
    let mut db = ready(false);
    let mut a = doc(Some("1"), None, "apple one");
    a.meta_data.insert("lang".to_string(), JsonValue::String("en".to_string()));
    a.meta_data.insert("year".to_string(), JsonValue::Number(JsonNumber::from_u64(2020)));
    let mut b = doc(Some("2"), None, "apple two");
    b.meta_data.insert("lang".to_string(), JsonValue::String("fr".to_string()));
    let c = doc(Some("3"), None, "apple three");
    db.insert(&[a, b, c], None).unwrap();

    let mut lang = JsonMap::new();
    lang.insert("lang".to_string(), JsonValue::String("en".to_string()));
    assert_eq!(contents(&db.search("apple", 10, Some(lang.clone())).unwrap()), vec!["apple one"]);

    lang.insert("year".to_string(), JsonValue::Number(JsonNumber::from_u64(2021)));
    assert!(db.search("apple", 10, Some(lang)).unwrap().is_empty());

    assert_eq!(db.search("apple", 10, Some(JsonMap::new())).unwrap().len(), 3);
    assert_eq!(db.search("apple", 10, None).unwrap().len(), 3);
}

#[test]
fn unsupported_search_modes_are_not_implemented() {
    let mut db = ready(false);
    db.insert(&[doc(Some("1"), None, "alpha")], None).unwrap();
    assert!(matches!(db.vector_search("alpha", 5), Err(VectorDbError::NotImplemented)));
    assert!(matches!(db.hybrid_search("alpha", 5), Err(VectorDbError::NotImplemented)));
    assert_eq!(db.keyword_search("alpha", 5).unwrap().len(), 1);
}

#[test]
fn optimize_changes_nothing() {
    let mut db = InMemoryVectorDb::new(false);
    db.optimize().unwrap();
    assert_eq!(db.db_exists().unwrap(), false);
    db.create().unwrap();
    db.insert(&[doc(Some("1"), None, "alpha")], None).unwrap();
    db.optimize().unwrap();
    assert_eq!(db.db_exists().unwrap(), true);
    assert_eq!(contents(&db.search("", 10, None).unwrap()), vec!["alpha"]);
}

#[test]
fn drop_is_idempotent_and_empties_the_collection() {
    let mut db = ready(false);
    db.insert(&[doc(Some("1"), None, "alpha")], None).unwrap();
    db.drop_db().unwrap();
    assert_eq!(db.db_exists().unwrap(), false);
    db.drop_db().unwrap();
    assert_eq!(db.db_exists().unwrap(), false);
    db.create().unwrap();
    assert_eq!(db.id_exists("1").unwrap(), false);
    assert!(db.search("", 10, None).unwrap().is_empty());
}

#[test]
fn delete_says_whether_there_was_a_collection() {
    let mut db = InMemoryVectorDb::new(false);
    assert_eq!(db.delete().unwrap(), false);
    db.create().unwrap();
    db.insert(&[doc(Some("1"), None, "alpha")], None).unwrap();
    assert_eq!(db.delete().unwrap(), true);
    assert_eq!(db.delete().unwrap(), false);
    assert_eq!(db.db_exists().unwrap(), false);
    db.create().unwrap();
    assert!(db.search("", 10, None).unwrap().is_empty());
}

#[test]
fn queries_match_whole_characters_anywhere_in_the_content() {
    let mut db = ready(false);
    db.insert(
        &[
            doc(Some("1"), None, "caf\u{00e9} au lait"),
            doc(Some("2"), None, "cafe"),
            doc(Some("3"), None, ""),
            doc(Some("4"), None, "lait"),
        ],
        None,
    )
    .unwrap();
    assert_eq!(contents(&db.search("\u{00e9}", 10, None).unwrap()), vec!["caf\u{00e9} au lait"]);
    assert_eq!(contents(&db.search("lait", 10, None).unwrap()), vec!["caf\u{00e9} au lait", "lait"]);
    assert_eq!(contents(&db.search("caf", 10, None).unwrap()), vec!["caf\u{00e9} au lait", "cafe"]);
    assert!(db.search("a much longer query than any content", 10, None).unwrap().is_empty());
    assert!(db.search("Lait", 10, None).unwrap().is_empty());
    assert_eq!(db.search("", 10, None).unwrap().len(), 4);
}
