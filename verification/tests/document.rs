use docstore::document::{Document, Score};
use docstore::json::{JsonMap, JsonNumber, JsonValue};

fn score(value: f64) -> Score {
    Score::parse(&format!("{:?}", value)).unwrap()
}

fn text(value: &str) -> JsonValue {
    JsonValue::String(value.to_string())
}

#[test]
fn test_document_serialization_deserialization_with_meta() {
    let mut meta = JsonMap::new();
    meta.insert("key".to_string(), text("value"));

    let doc = Document {
        content: "Test content".to_string(),
        id: Some("123".to_string()),
        name: Some("Test Document".to_string()),
        meta_data: meta.clone(),
        usage: None,
        reranking_score: Some(score(0.95)),
    };

    let serialized_json = doc.to_json().unwrap();

    assert!(serialized_json.contains("\"content\":\"Test content\""));
    assert!(serialized_json.contains("\"id\":\"123\""));
    assert!(serialized_json.contains("\"name\":\"Test Document\""));
    assert!(serialized_json.contains("\"meta_data\":{\"key\":\"value\"}"));
    assert!(serialized_json.contains("\"reranking_score\":0.95"));
    assert!(!serialized_json.contains("usage"));

    let deserialized_doc = Document::from_json(&serialized_json).unwrap();
    assert_eq!(doc, deserialized_doc);
}

#[test]
fn test_document_minimal_serialization_with_default_meta() {
    let doc = Document {
        content: "Minimal content".to_string(),
        id: None,
        name: None,
        meta_data: JsonMap::new(),
        usage: None,
        reranking_score: None,
    };
    let serialized_json = doc.to_json().unwrap();
    assert_eq!(serialized_json, r#"{"content":"Minimal content","meta_data":{}}"#);

    let deserialized_doc = Document::from_json(&serialized_json).unwrap();
    assert_eq!(doc, deserialized_doc);

    let json_minimal_input = r#"{"content":"Minimal content from JSON"}"#;
    let deserialized_minimal_doc = Document::from_json(json_minimal_input).unwrap();
    assert_eq!(deserialized_minimal_doc.content, "Minimal content from JSON");
    assert!(deserialized_minimal_doc.meta_data.is_empty());
    assert_eq!(deserialized_minimal_doc.id, None);
}

#[test]
fn test_document_with_empty_meta_serialization() {
    let doc = Document {
        content: "Content with empty meta".to_string(),
        id: None,
        name: None,
        meta_data: JsonMap::new(),
        usage: None,
        reranking_score: None,
    };
    let serialized_json = doc.to_json().unwrap();
    assert!(serialized_json.contains("\"meta_data\":{}"));
    assert!(serialized_json.contains("\"content\":\"Content with empty meta\""));

    let deserialized_doc = Document::from_json(&serialized_json).unwrap();
    assert_eq!(doc, deserialized_doc);
}

#[test]
fn test_deserialization_missing_optional_fields_and_default_meta() {
    let json_input = r#"{"content":"Content only"}"#;
    let deserialized_doc = Document::from_json(json_input).unwrap();
    let expected_doc = Document {
        content: "Content only".to_string(),
        id: None,
        name: None,
        meta_data: JsonMap::new(),
        usage: None,
        reranking_score: None,
    };
    assert_eq!(deserialized_doc, expected_doc);
}

#[test]
fn test_deserialization_with_all_fields_including_meta() {
    let json_input = r#"{
            "content": "Full document",
            "id": "doc_id_001",
            "name": "Full Doc",
            "meta_data": {"source": "test", "valid": true},
            "usage": {"tokens": 120},
            "reranking_score": 0.88
        }"#;
    let deserialized_doc = Document::from_json(json_input).unwrap();
    let mut meta = JsonMap::new();
    meta.insert("source".to_string(), text("test"));
    meta.insert("valid".to_string(), JsonValue::Bool(true));
    let mut usage_map = JsonMap::new();
    usage_map.insert("tokens".to_string(), JsonValue::Number(JsonNumber::from_i64(120)));
    let expected_doc = Document {
        content: "Full document".to_string(),
        id: Some("doc_id_001".to_string()),
        name: Some("Full Doc".to_string()),
        meta_data: meta,
        usage: Some(usage_map),
        reranking_score: Some(score(0.88)),
    };
    assert_eq!(deserialized_doc, expected_doc);
}

#[test]
fn new_document_has_no_metadata_and_no_usage() {
    let doc = Document::new(
        "Body".to_string(),
        Some("a1".to_string()),
        Some("Title".to_string()),
        Some(score(0.5)),
    );
    assert_eq!(doc.content, "Body");
    assert_eq!(doc.id, Some("a1".to_string()));
    assert_eq!(doc.name, Some("Title".to_string()));
    assert!(doc.meta_data.is_empty());
    assert!(doc.usage.is_none());
    assert_eq!(doc.reranking_score, Some(score(0.5)));
}

#[test]
fn minimal_document_serializes_to_exactly_two_keys() {
    let doc = Document::new("Minimal content".to_string(), None, None, None);
    assert_eq!(doc.to_json().unwrap(), r#"{"content":"Minimal content","meta_data":{}}"#);
}

#[test]
fn content_only_json_gives_all_defaults() {
    let doc = Document::from_json(r#"{"content":"Content only"}"#).unwrap();
    assert_eq!(doc.content, "Content only");
    assert_eq!(doc.id, None);
    assert_eq!(doc.name, None);
    assert!(doc.usage.is_none());
    assert!(doc.reranking_score.is_none());
    assert!(doc.meta_data.is_empty());
    assert_eq!(doc.meta_data.len(), 0);
}

#[test]
fn full_document_round_trips_through_json_text() {
    let mut inner = JsonMap::new();
    inner.insert("depth".to_string(), JsonValue::Number(JsonNumber::from_i64(-2)));
    inner.insert("none".to_string(), JsonValue::Null);
    let mut meta = JsonMap::new();
    meta.insert("tags".to_string(), JsonValue::Array(vec![text("a"), text("b")]));
    meta.insert("nested".to_string(), JsonValue::Object(inner));
    meta.insert("ratio".to_string(), JsonValue::Number(JsonNumber::parse("2.5e-3").unwrap()));
    let mut usage = JsonMap::new();
    usage.insert("tokens".to_string(), JsonValue::Number(JsonNumber::from_u64(u64::MAX)));
    let doc = Document {
        content: "Line one\nLine \"two\" \u{00e9}".to_string(),
        id: Some("id-1".to_string()),
        name: Some("Name".to_string()),
        meta_data: meta,
        usage: Some(usage),
        reranking_score: Some(score(0.1)),
    };
    let back = Document::from_json(&doc.to_json().unwrap()).unwrap();
    assert_eq!(back, doc);
    assert_eq!(back.to_json().unwrap(), doc.to_json().unwrap());
}

#[test]
fn document_round_trips_through_json_value() {
    let mut meta = JsonMap::new();
    meta.insert("k".to_string(), JsonValue::Bool(false));
    let doc = Document {
        content: String::new(),
        id: None,
        name: Some("n".to_string()),
        meta_data: meta,
        usage: Some(JsonMap::new()),
        reranking_score: Some(score(-3.25)),
    };
    assert_eq!(Document::from_value(&doc.to_value()).unwrap(), doc);
}

#[test]
fn serialized_keys_follow_which_fields_are_set() {
    let mut doc = Document::new("c".to_string(), None, None, None);
    doc.usage = Some(JsonMap::new());
    assert_eq!(doc.to_json().unwrap(), r#"{"content":"c","meta_data":{},"usage":{}}"#);
    doc.usage = None;
    doc.id = Some("i".to_string());
    assert_eq!(doc.to_json().unwrap(), r#"{"content":"c","id":"i","meta_data":{}}"#);
    doc.reranking_score = Some(score(1.0));
    assert_eq!(
        doc.to_json().unwrap(),
        r#"{"content":"c","id":"i","meta_data":{},"reranking_score":1.0}"#
    );
}

#[test]
fn null_optional_fields_read_as_absent() {
    let doc = Document::from_json(
        r#"{"content":"c","id":null,"name":null,"usage":null,"reranking_score":null}"#,
    )
    .unwrap();
    assert_eq!(doc, Document::new("c".to_string(), None, None, None));
}

#[test]
fn unknown_keys_are_passed_over() {
    let doc = Document::from_json(r#"{"content":"c","extra":[1,2,3]}"#).unwrap();
    assert_eq!(doc, Document::new("c".to_string(), None, None, None));
}

#[test]
fn integer_score_reads_as_float() {
    let doc = Document::from_json(r#"{"content":"c","reranking_score":1}"#).unwrap();
    assert_eq!(doc.reranking_score, Some(score(1.0)));
    assert_eq!(doc.to_json().unwrap(), r#"{"content":"c","meta_data":{},"reranking_score":1.0}"#);
}

#[test]
fn missing_content_is_reported() {
    let err = Document::from_json(r#"{"id":"x"}"#).unwrap_err();
    assert_eq!(err.message, "missing field `content`");
}

#[test]
fn wrong_field_types_are_reported() {
    let err = Document::from_json(r#"{"content":5}"#).unwrap_err();
    assert_eq!(err.message, "invalid type for field `content`");
    let err = Document::from_json(r#"{"content":"c","id":7}"#).unwrap_err();
    assert_eq!(err.message, "invalid type for field `id`");
    let err = Document::from_json(r#"{"content":"c","name":[]}"#).unwrap_err();
    assert_eq!(err.message, "invalid type for field `name`");
    let err = Document::from_json(r#"{"content":"c","meta_data":null}"#).unwrap_err();
    assert_eq!(err.message, "invalid type for field `meta_data`");
    let err = Document::from_json(r#"{"content":"c","usage":"u"}"#).unwrap_err();
    assert_eq!(err.message, "invalid type for field `usage`");
    let err = Document::from_json(r#"{"content":"c","reranking_score":"high"}"#).unwrap_err();
    assert_eq!(err.message, "invalid type for field `reranking_score`");
}

#[test]
fn json_that_is_no_object_is_reported() {
    let err = Document::from_json(r#"["content"]"#).unwrap_err();
    assert_eq!(err.message, "expected a JSON object");
    let err = Document::from_value(&JsonValue::Null).unwrap_err();
    assert_eq!(err.message, "expected a JSON object");
}

#[test]
fn malformed_json_keeps_the_message_of_the_parser() {
    let err = Document::from_json("{not json").unwrap_err();
    assert_eq!(err.message, "key must be a string at line 1 column 2");
    let err = Document::from_json("").unwrap_err();
    assert_eq!(err.message, "EOF while parsing a value at line 1 column 0");
}

#[test]
fn metadata_reads_and_writes_alone() {
    let mut doc = Document::new("c".to_string(), Some("i".to_string()), None, None);
    assert_eq!(doc.get_meta_data_as_json().unwrap(), "{}");
    doc.set_meta_data_from_json(r#"{"b": 2, "a": "x"}"#).unwrap();
    assert_eq!(doc.get_meta_data_as_json().unwrap(), r#"{"a":"x","b":2}"#);
    assert_eq!(doc.meta_data.get("a"), Some(&text("x")));
    assert_eq!(doc.meta_data.get("b"), Some(&JsonValue::Number(JsonNumber::from_u64(2))));
    assert_eq!(doc.content, "c");
    assert_eq!(doc.id, Some("i".to_string()));
}

#[test]
fn malformed_metadata_leaves_the_document_unchanged() {
    let mut doc = Document::new("c".to_string(), None, None, None);
    doc.set_meta_data_from_json(r#"{"kept": true}"#).unwrap();
    let before = doc.clone();

    let err = doc.set_meta_data_from_json(r#"{"kept": "#).unwrap_err();
    assert!(!err.message.is_empty());
    assert_eq!(doc, before);

    let err = doc.set_meta_data_from_json("[1, 2]").unwrap_err();
    assert_eq!(err.message, "expected a JSON object");
    assert_eq!(doc, before);

    let err = doc.set_meta_data_from_json("null").unwrap_err();
    assert_eq!(err.message, "expected a JSON object");
    assert_eq!(doc, before);
    assert_eq!(doc.get_meta_data_as_json().unwrap(), r#"{"kept":true}"#);
}

#[test]
fn documents_compare_by_value() {
    let mut a = Document::new("c".to_string(), None, None, Some(score(0.0)));
    let mut b = Document::new("c".to_string(), None, None, Some(score(-0.0)));
    assert_eq!(a, b);
    a.meta_data.insert("x".to_string(), JsonValue::Number(JsonNumber::from_u64(1)));
    a.meta_data.insert("y".to_string(), JsonValue::Null);
    b.meta_data.insert("y".to_string(), JsonValue::Null);
    assert_ne!(a, b);
    b.meta_data.insert("x".to_string(), JsonValue::Number(JsonNumber::from_u64(1)));
    assert_eq!(a, b);
    b.meta_data.insert("x".to_string(), JsonValue::Number(JsonNumber::parse("1.0").unwrap()));
    assert_ne!(a, b);
    let c = Document::new("c".to_string(), Some("i".to_string()), None, None);
    let d = Document::new("c".to_string(), None, None, None);
    assert_ne!(c, d);
    assert_ne!(d, Document::new("c".to_string(), None, None, Some(score(0.0))));
}

#[test]
fn score_parses_decimal_text() {
    assert!(Score::parse("abc").is_none());
    assert!(Score::parse("").is_none());
    assert_eq!(Score::parse("0.950").unwrap(), score(0.95));
    assert_eq!(Score::parse("2").unwrap(), score(2.0));
    assert_ne!(Score::parse("2").unwrap(), score(2.5));
    let n = score(0.25).to_number();
    assert_eq!(JsonValue::Number(n.clone()).to_json().unwrap(), "0.25");
    assert_eq!(Score::from_number(&n), score(0.25));
    assert_eq!(Score::from_number(&JsonNumber::from_i64(-4)), score(-4.0));
}
