use timefusion::error::TimeFusionError;

#[test]
fn a_message_names_kind_and_reason() {
    assert_eq!(
        TimeFusionError::UnknownProject("p1".to_string()).message(),
        "UnknownProject: p1"
    );
    assert_eq!(TimeFusionError::SchemaInvariant("x".to_string()).message(), "SchemaInvariant: x");
    assert_eq!(TimeFusionError::SchemaMismatch("x".to_string()).message(), "SchemaMismatch: x");
    assert_eq!(TimeFusionError::Unimplemented("x".to_string()).message(), "Unimplemented: x");
    assert_eq!(TimeFusionError::CommitFailed("x".to_string()).message(), "CommitFailed: x");
    assert_eq!(TimeFusionError::Io("x".to_string()).message(), "Io: x");
    assert_eq!(TimeFusionError::AuthFailed("x".to_string()).message(), "AuthFailed: x");
    assert_eq!(TimeFusionError::BadEndpoint("x".to_string()).message(), "BadEndpoint: x");
    assert_eq!(TimeFusionError::CredentialError("x".to_string()).message(), "CredentialError: x");
    assert_eq!(TimeFusionError::TableCreate(String::new()).message(), "TableCreate: ");
}

#[test]
fn only_io_and_auth_failures_close_the_connection() {
    assert!(TimeFusionError::Io("x".to_string()).is_fatal_to_connection());
    assert!(TimeFusionError::AuthFailed("x".to_string()).is_fatal_to_connection());
    assert!(!TimeFusionError::UnknownProject("x".to_string()).is_fatal_to_connection());
    assert!(!TimeFusionError::SchemaMismatch("x".to_string()).is_fatal_to_connection());
    assert!(!TimeFusionError::Unimplemented("x".to_string()).is_fatal_to_connection());
    assert!(!TimeFusionError::CommitFailed("x".to_string()).is_fatal_to_connection());
    assert!(!TimeFusionError::SchemaInvariant("x".to_string()).is_fatal_to_connection());
    assert!(!TimeFusionError::BadEndpoint("x".to_string()).is_fatal_to_connection());
    assert!(!TimeFusionError::CredentialError("x".to_string()).is_fatal_to_connection());
    assert!(!TimeFusionError::TableCreate("x".to_string()).is_fatal_to_connection());
}
