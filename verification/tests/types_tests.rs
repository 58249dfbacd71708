use privacy_rpc_proxy::enums::RpcMethod;
use privacy_rpc_proxy::types::{
    BatchRequest, HealthResponse, ProxyConfig, Query, QueryParams, DEFAULT_K_ANONYMITY,
    DEFAULT_PORT, MAX_BATCH_SIZE,
};

#[test]
fn test_proxy_config_new() {
    let config = ProxyConfig::new("http://localhost:8899".to_string());

    assert_eq!(config.rpc_url, "http://localhost:8899");
    assert_eq!(config.port, DEFAULT_PORT);
    assert_eq!(config.k_anonymity, DEFAULT_K_ANONYMITY);
    assert_eq!(config.max_batch_size, MAX_BATCH_SIZE);
}

#[test]
fn test_proxy_config_builder() {
    let config = ProxyConfig::new("http://localhost:8899".to_string())
        .with_port(8080)
        .with_k_anonymity(5);

    assert_eq!(config.port, 8080);
    assert_eq!(config.k_anonymity, 5);
}

#[test]
fn test_proxy_config_with_poller() {
    let config = ProxyConfig::new("http://localhost:8899".to_string()).with_poller(2500);
    assert!(config.enable_poller);
    assert_eq!(config.poll_interval_ms, Some(2500));
}

#[test]
fn test_proxy_config_default() {
    let config = ProxyConfig::default();
    assert_eq!(config.rpc_url, "");
    assert_eq!(config.port, DEFAULT_PORT);
    assert!(!config.enable_poller);
}

#[test]
fn test_constants() {
    assert_eq!(MAX_BATCH_SIZE, 100);
    assert_eq!(DEFAULT_K_ANONYMITY, 10);
    assert_eq!(DEFAULT_PORT, 3000);
}

#[test]
fn test_health_response_healthy() {
    let response = HealthResponse::new(true);

    assert_eq!(response.status, "healthy");
    assert!(response.rpc_healthy);
    assert!(!response.version.is_empty());
}

#[test]
fn test_health_response_degraded() {
    let response = HealthResponse::new(false);

    assert_eq!(response.status, "degraded");
    assert!(!response.rpc_healthy);
}

#[test]
fn test_health_response_constants() {
    assert_eq!(HealthResponse::STATUS_HEALTHY, "healthy");
    assert_eq!(HealthResponse::STATUS_DEGRADED, "degraded");
}

#[test]
fn test_query_new() {
    let query = Query::new(
        "test-1".to_string(),
        RpcMethod::GetBalance,
        "11111111111111111111111111111111".to_string(),
    );

    assert_eq!(query.id, "test-1");
    assert_eq!(query.method, RpcMethod::GetBalance);
    assert_eq!(
        query.pubkey,
        Some("11111111111111111111111111111111".to_string())
    );
    assert!(query.commitment.is_none());
}

#[test]
fn test_query_with_commitment() {
    let query = Query::new(
        "test-1".to_string(),
        RpcMethod::GetBalance,
        "11111111111111111111111111111111".to_string(),
    )
    .with_commitment("finalized".to_string());

    assert_eq!(query.commitment, Some("finalized".to_string()));
}

#[test]
fn test_query_primary_param() {
    let q1 = Query::new("a".to_string(), RpcMethod::GetBalance, "pk".to_string());
    assert_eq!(q1.get_primary_param(), Some("pk".to_string()));

    let q2 = Query::with_params(
        "b".to_string(),
        RpcMethod::GetTransaction,
        QueryParams::Text("sig".to_string()),
    );
    assert_eq!(q2.get_primary_param(), Some("sig".to_string()));

    let q3 = Query::with_params("c".to_string(), RpcMethod::GetBlockHeight, QueryParams::Other);
    assert_eq!(q3.get_primary_param(), None);
}

#[test]
fn test_batch_request_new() {
    let queries = vec![Query::new(
        "1".to_string(),
        RpcMethod::GetBalance,
        "pubkey".to_string(),
    )];

    let request = BatchRequest::new(queries);
    assert_eq!(request.len(), 1);
    assert!(!request.is_empty());
    assert!(request.batch_hash.is_none());
}

#[test]
fn test_batch_request_with_hash() {
    let request = BatchRequest::new(vec![]).with_hash("abc123".to_string());
    assert_eq!(request.batch_hash, Some("abc123".to_string()));
}

#[test]
fn test_batch_request_empty() {
    let request = BatchRequest::new(vec![]);
    assert!(request.is_empty());
    assert_eq!(request.len(), 0);
}
