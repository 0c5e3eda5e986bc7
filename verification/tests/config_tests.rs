use ndnm_hermes::config::{validate_config, ConnectionCount, NodeConfig};
use ndnm_hermes::error::AppError;

fn config(id: &str, label: &str, node_type: &str) -> NodeConfig {
    NodeConfig {
        node_id_hash: id.to_string(),
        label: label.to_string(),
        node_type: node_type.to_string(),
        sections: vec![],
        input_fields: vec![],
    }
}

#[test]
fn test_connection_count_exact() {
    let count = ConnectionCount::Exact(1);
    assert!(!count.is_unlimited());
    assert_eq!(count.max_connections(), Some(1));
}

#[test]
fn test_connection_count_unlimited() {
    let count = ConnectionCount::Unlimited("n".to_string());
    assert!(count.is_unlimited());
    assert_eq!(count.max_connections(), None);
}

#[test]
fn test_validate_config_accepts_complete_identity() {
    assert!(validate_config(&config("hash_1", "A Node", "processing")).is_ok());
}

#[test]
fn test_validate_config_rejects_empty_id() {
    let err = validate_config(&config("", "A Node", "processing")).unwrap_err();
    assert!(matches!(err, AppError::ConfigError(_)));
    assert_eq!(err.message(), "Configuration error: node_id_hash cannot be empty");
}

#[test]
fn test_validate_config_rejects_empty_label() {
    let err = validate_config(&config("hash_1", "", "processing")).unwrap_err();
    assert_eq!(err.message(), "Configuration error: label cannot be empty");
}

#[test]
fn test_validate_config_rejects_empty_node_type() {
    let err = validate_config(&config("hash_1", "A Node", "")).unwrap_err();
    assert_eq!(err.message(), "Configuration error: node_type cannot be empty");
}

#[test]
fn test_bad_request_error() {
    let error = AppError::BadRequest("test error".to_string());
    assert_eq!(error.message(), "Bad request: test error");
}

#[test]
fn test_internal_error() {
    let error = AppError::Internal("test error".to_string());
    assert_eq!(error.message(), "Internal error: test error");
}

#[test]
fn test_config_error() {
    let error = AppError::ConfigError("test error".to_string());
    assert_eq!(error.message(), "Configuration error: test error");
}
