use privacy_rpc_proxy::error::ProxyError;
use privacy_rpc_proxy::types::MAX_BATCH_SIZE;

#[test]
fn test_error_display() {
    let err = ProxyError::InvalidPubkey("not-base58".to_string());
    assert_eq!(err.message(), "Invalid pubkey: not-base58");
}

#[test]
fn test_batch_too_large_error() {
    let err = ProxyError::batch_too_large(150);
    assert!(err.message().contains("150"));
    assert!(err.message().contains(&MAX_BATCH_SIZE.to_string()));
}

#[test]
fn test_empty_batch_error() {
    let err = ProxyError::EmptyBatch;
    assert_eq!(err.message(), "Batch cannot be empty");
}

#[test]
fn test_invalid_query_error() {
    let err = ProxyError::InvalidQuery("missing field".to_string());
    assert_eq!(err.message(), "Invalid query: missing field");
}

#[test]
fn test_batch_too_large_message_text() {
    let err = ProxyError::BatchTooLarge { actual: 101, max: 100 };
    assert_eq!(err.message(), "Batch size 101 exceeds maximum of 100");
}

#[test]
fn test_solana_rpc_error_message() {
    let err = ProxyError::SolanaRpc("connection refused".to_string());
    assert_eq!(err.message(), "Solana RPC error: connection refused");
}

#[test]
fn test_timeout_error_message() {
    let err = ProxyError::Timeout(5000);
    assert_eq!(err.message(), "Query execution timed out after 5000ms");
}

#[test]
fn test_internal_error_message() {
    let err = ProxyError::Internal("boom".to_string());
    assert_eq!(err.message(), "Internal error: boom");
}
