use docstore::vectordb::VectorDbError;

#[test]
fn it_works() {
    assert_eq!(2 + 2, 4);
}

#[test]
fn errors_describe_themselves() {
    assert_eq!(VectorDbError::NotImplemented.to_string(), "Operation not implemented");
    assert_eq!(
        VectorDbError::ConnectionError("refused".to_string()).to_string(),
        "Connection error: refused"
    );
    assert_eq!(
        VectorDbError::OperationFailed("schema mismatch".to_string()).to_string(),
        "Operation failed: schema mismatch"
    );
    assert_eq!(VectorDbError::OperationFailed(String::new()).to_string(), "Operation failed: ");
}
