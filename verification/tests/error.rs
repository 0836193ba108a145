use notaro_core::error::NotaroError;
use std::io;

#[test]
fn test_io_error_conversion() {
    let io_err = io::Error::new(io::ErrorKind::NotFound, "File not found");
    let err: NotaroError = io_err.into();

    match err {
        NotaroError::Io(e) => assert_eq!(e.kind(), io::ErrorKind::NotFound),
        _ => panic!("Expected Io error variant"),
    }
}

#[test]
fn test_serialization_error_conversion() {
    // Trigger a serde error by parsing invalid JSON
    let err_result = serde_json::from_str::<serde_json::Value>("{invalid_json");
    let serde_err = err_result.unwrap_err();
    let err: NotaroError = serde_err.into();

    match err {
        NotaroError::Serialization(_) => assert!(true),
        _ => panic!("Expected Serialization error variant"),
    }
}

#[test]
fn test_error_display_formatting() {
    let io_err = io::Error::new(io::ErrorKind::PermissionDenied, "Access denied");
    let err: NotaroError = io_err.into();

    let display_msg = err.message();
    assert_eq!(display_msg, "IO error: Access denied");
}

#[test]
fn database_failure_is_a_storage_fault_with_its_heading() {
    let err: NotaroError = rusqlite::Error::QueryReturnedNoRows.into();
    assert!(matches!(err, NotaroError::Db(rusqlite::Error::QueryReturnedNoRows)));
    assert_eq!(err.kind(), notaro_core::error::ErrorKind::StorageFault);
    assert_eq!(err.message(), "Database error: Query returned no rows");
}

#[test]
fn json_failure_is_a_serialization_fault_with_its_heading() {
    let cause = serde_json::from_str::<serde_json::Value>("[1,").unwrap_err();
    let said = cause.to_string();
    let err: NotaroError = cause.into();
    assert_eq!(err.kind(), notaro_core::error::ErrorKind::SerializationFault);
    assert_eq!(err.message(), format!("Serialization error: {}", said));
}

#[test]
fn io_failure_is_an_io_fault() {
    let err: NotaroError = io::Error::new(io::ErrorKind::Other, "x").into();
    assert_eq!(err.kind(), notaro_core::error::ErrorKind::IoFault);
}

#[test]
fn timestamp_failure_is_a_serialization_fault_with_its_heading() {
    let cause = chrono::DateTime::parse_from_rfc3339("nope").unwrap_err();
    let said = cause.to_string();
    let err: NotaroError = cause.into();
    assert!(matches!(err, NotaroError::Timestamp(_)));
    assert_eq!(err.kind(), notaro_core::error::ErrorKind::SerializationFault);
    assert_eq!(err.message(), format!("Serialization error: {}", said));
}

#[test]
fn the_stores_own_failures_have_fixed_texts() {
    assert_eq!(NotaroError::NotFound.message(), "Record not found");
    assert_eq!(NotaroError::DuplicateId.message(), "Database error: record id already exists");
    assert_eq!(
        NotaroError::VersionOverflow.message(),
        "Database error: record version exhausted"
    );
    assert_eq!(NotaroError::NotFound.kind(), notaro_core::error::ErrorKind::NotFound);
    assert_eq!(NotaroError::DuplicateId.kind(), notaro_core::error::ErrorKind::StorageFault);
    assert_eq!(
        NotaroError::VersionOverflow.kind(),
        notaro_core::error::ErrorKind::StorageFault
    );
}
