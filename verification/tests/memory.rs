use docstore::json::JsonValue;
use docstore::memory::{Memory, MemoryRetrieval};

#[test]
fn test_memory_retrieval_serialization() {
    assert_eq!(MemoryRetrieval::LastN.to_json().unwrap(), r#""last_n""#);
    assert_eq!(MemoryRetrieval::FirstN.to_json().unwrap(), r#""first_n""#);
    assert_eq!(MemoryRetrieval::Semantic.to_json().unwrap(), r#""semantic""#);
}

#[test]
fn test_memory_retrieval_deserialization() {
    assert_eq!(MemoryRetrieval::from_json(r#""last_n""#).unwrap(), MemoryRetrieval::LastN);
    assert_eq!(MemoryRetrieval::from_json(r#""first_n""#).unwrap(), MemoryRetrieval::FirstN);
    assert_eq!(MemoryRetrieval::from_json(r#""semantic""#).unwrap(), MemoryRetrieval::Semantic);
}

#[test]
fn test_memory_serialization_all_fields() {
    let mem = Memory {
        memory: "Recall this event.".to_string(),
        id: Some("mem_123".to_string()),
        topic: Some("event_recollection".to_string()),
        input: Some("User query about event X".to_string()),
    };
    let json = mem.to_json().unwrap();
    assert!(json.contains(r#""memory":"Recall this event.""#));
    assert!(json.contains(r#""id":"mem_123""#));
    assert!(json.contains(r#""topic":"event_recollection""#));
    assert!(json.contains(r#""input":"User query about event X""#));
}

#[test]
fn test_memory_serialization_mandatory_only() {
    let mem = Memory {
        memory: "Recall this basic fact.".to_string(),
        id: None,
        topic: None,
        input: None,
    };
    let json = mem.to_json().unwrap();
    assert_eq!(json, r#"{"memory":"Recall this basic fact."}"#);
}

#[test]
fn test_memory_deserialization_all_fields() {
    let json_data = r#"{
            "memory": "Recall this event.",
            "id": "mem_123",
            "topic": "event_recollection",
            "input": "User query about event X"
        }"#;
    let deserialized_mem = Memory::from_json(json_data).unwrap();

    assert_eq!(deserialized_mem.memory, "Recall this event.");
    assert_eq!(deserialized_mem.id, Some("mem_123".to_string()));
    assert_eq!(deserialized_mem.topic, Some("event_recollection".to_string()));
    assert_eq!(deserialized_mem.input, Some("User query about event X".to_string()));
}

#[test]
fn test_memory_deserialization_mandatory_only() {
    let json_data = r#"{"memory": "Recall this basic fact."}"#;
    let deserialized_mem = Memory::from_json(json_data).unwrap();

    assert_eq!(deserialized_mem.memory, "Recall this basic fact.");
    assert_eq!(deserialized_mem.id, None);
    assert_eq!(deserialized_mem.topic, None);
    assert_eq!(deserialized_mem.input, None);
}

#[test]
fn test_memory_deserialization_with_some_optional() {
    let json_data = r#"{
            "memory": "Another memory item.",
            "topic": "general_knowledge"
        }"#;
    let deserialized_mem = Memory::from_json(json_data).unwrap();

    assert_eq!(deserialized_mem.memory, "Another memory item.");
    assert_eq!(deserialized_mem.id, None);
    assert_eq!(deserialized_mem.topic, Some("general_knowledge".to_string()));
    assert_eq!(deserialized_mem.input, None);
}

#[test]
fn memory_round_trips_through_json() {
    let mem = Memory {
        memory: "m".to_string(),
        id: None,
        topic: Some("t".to_string()),
        input: Some("i".to_string()),
    };
    assert_eq!(mem.to_json().unwrap(), r#"{"input":"i","memory":"m","topic":"t"}"#);
    assert_eq!(Memory::from_json(&mem.to_json().unwrap()).unwrap(), mem);
    assert_eq!(Memory::from_value(&mem.to_value()).unwrap(), mem);
    assert_eq!(mem.clone(), mem);
    let other = Memory { memory: "m".to_string(), id: None, topic: None, input: None };
    assert_ne!(mem, other);
}

#[test]
fn memory_faults_are_reported() {
    assert_eq!(Memory::from_json("{}").unwrap_err().message, "missing field `memory`");
    assert_eq!(
        Memory::from_json(r#"{"memory":"m","topic":3}"#).unwrap_err().message,
        "invalid type for field `topic`"
    );
    assert_eq!(Memory::from_json("3").unwrap_err().message, "expected a JSON object");
    assert!(Memory::from_json("{").is_err());
}

#[test]
fn retrieval_names_round_trip() {
    for retrieval in [MemoryRetrieval::LastN, MemoryRetrieval::FirstN, MemoryRetrieval::Semantic] {
        assert_eq!(MemoryRetrieval::from_name(retrieval.name()), Some(retrieval));
        assert_eq!(MemoryRetrieval::from_value(&retrieval.to_value()).unwrap(), retrieval);
    }
    assert_eq!(MemoryRetrieval::Semantic.name(), "semantic");
    assert_eq!(MemoryRetrieval::from_name("LastN"), None);
}

#[test]
fn retrieval_faults_are_reported() {
    assert_eq!(
        MemoryRetrieval::from_json(r#""newest""#).unwrap_err().message,
        "unknown variant `newest`"
    );
    assert_eq!(MemoryRetrieval::from_json("7").unwrap_err().message, "expected a JSON string");
    assert_eq!(
        MemoryRetrieval::from_value(&JsonValue::Null).unwrap_err().message,
        "expected a JSON string"
    );
    assert!(MemoryRetrieval::from_json("last_n").is_err());
}
