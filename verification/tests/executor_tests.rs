use privacy_rpc_proxy::enums::{CommitmentLevel, RpcMethod};
use sha2::Digest;
use privacy_rpc_proxy::error::ProxyError;
use privacy_rpc_proxy::executor::{
    collect_results, effective_commitment, extract_pubkeys, validate_batch_request, BatchResponse,
    QueryResult,
};
use privacy_rpc_proxy::types::{BatchRequest, Query, QueryParams};

#[test]
fn test_batch_executor_validates_empty_batch() {
    let request = BatchRequest::new(vec![]);

    let result = validate_batch_request(&request);

    assert!(matches!(result, Err(ProxyError::EmptyBatch)));
}

#[test]
fn test_batch_executor_validates_batch_size() {
    let queries: Vec<Query> = (0..150)
        .map(|i| {
            Query::new(
                format!("query-{}", i),
                RpcMethod::GetBalance,
                "11111111111111111111111111111111".to_string(),
            )
        })
        .collect();

    let request = BatchRequest::new(queries);

    let result = validate_batch_request(&request);

    assert!(matches!(
        result,
        Err(ProxyError::BatchTooLarge { actual: 150, .. })
    ));
}

#[test]
fn test_batch_executor_admits_full_batch() {
    let queries: Vec<Query> = (0..100)
        .map(|i| {
            Query::new(
                format!("query-{}", i),
                RpcMethod::GetBalance,
                "11111111111111111111111111111111".to_string(),
            )
        })
        .collect();

    let request = BatchRequest::new(queries);

    assert!(validate_batch_request(&request).is_ok());
}

#[test]
fn test_batch_response_all_success() {
    let results = vec![
        QueryResult::success("1".to_string(), "{}".to_string()),
        QueryResult::success("2".to_string(), "{}".to_string()),
    ];

    let response = BatchResponse::from_results(results, 50);

    assert!(response.success);
    assert_eq!(response.succeeded_count, 2);
    assert_eq!(response.failed_count, 0);
    assert_eq!(response.execution_time_ms, 50);
    assert!(!response.batch_hash.is_empty());
}

#[test]
fn test_batch_response_partial_failure() {
    let results = vec![
        QueryResult::success("1".to_string(), "{}".to_string()),
        QueryResult::failure("2".to_string(), "error".to_string()),
    ];

    let response = BatchResponse::from_results(results, 100);

    assert!(!response.success);
    assert_eq!(response.succeeded_count, 1);
    assert_eq!(response.failed_count, 1);
    assert!(!response.batch_hash.is_empty());
}

#[test]
fn test_batch_response_empty() {
    let response = BatchResponse::from_results(vec![], 0);

    assert!(response.success);
    assert_eq!(response.succeeded_count, 0);
    assert_eq!(response.failed_count, 0);
    assert!(!response.batch_hash.is_empty());
}

#[test]
fn test_batch_response_empty_hash_value() {
    // The preimage of an empty result sequence is empty, so the batch
    // hash must be the hex rendering of SHA-256 of no bytes.
    let response = BatchResponse::from_results(vec![], 0);
    assert_eq!(
        response.batch_hash,
        "e3b0c44298fc1c149afbf4c8996fb92427ae41e4649b934ca495991b7852b855"
    );
}

#[test]
fn test_batch_hash_matches_preimage_digest() {
    // id "a", flag '1', data "b" hash exactly the bytes of "a1b".
    let results = vec![QueryResult::success("a".to_string(), "b".to_string())];
    let response = BatchResponse::from_results(results, 0);

    let digest = sha2::Sha256::digest("a1b".as_bytes());
    assert_eq!(response.batch_hash, hex::encode(digest));
}

#[test]
fn test_batch_hash_deterministic() {
    let make = || {
        vec![
            QueryResult::success("1".to_string(), "{\"lamports\":7}".to_string()),
            QueryResult::failure("2".to_string(), "oops".to_string()),
        ]
    };

    let r1 = BatchResponse::from_results(make(), 10);
    let r2 = BatchResponse::from_results(make(), 99);

    assert_eq!(r1.batch_hash, r2.batch_hash);
}

#[test]
fn test_batch_hash_order_sensitive() {
    let a = QueryResult::success("1".to_string(), "{\"lamports\":7}".to_string());
    let b = QueryResult::failure("2".to_string(), "oops".to_string());

    let r1 = BatchResponse::from_results(vec![a.clone(), b.clone()], 10);
    let r2 = BatchResponse::from_results(vec![b, a], 10);

    assert_ne!(r1.batch_hash, r2.batch_hash);
}

#[test]
fn test_three_query_batch_with_one_failure() {
    let results = vec![
        QueryResult::success("q1".to_string(), "{\"ok\":1}".to_string()),
        QueryResult::failure("q2".to_string(), "Invalid pubkey: bad-target".to_string()),
        QueryResult::success("q3".to_string(), "{\"ok\":3}".to_string()),
    ];

    let response = BatchResponse::from_results(results, 12);

    assert_eq!(response.succeeded_count, 2);
    assert_eq!(response.failed_count, 1);
    assert!(!response.success);
    assert_eq!(response.results.len(), 3);
    assert_eq!(response.results[0].id, "q1");
    assert_eq!(response.results[1].id, "q2");
    assert_eq!(response.results[2].id, "q3");
}

#[test]
fn test_query_result_success() {
    let result = QueryResult::success("id1".to_string(), "{\"lamports\":100}".to_string());

    assert!(result.success);
    assert!(result.data.is_some());
    assert!(result.error.is_none());
    assert_eq!(result.id, "id1");
}

#[test]
fn test_query_result_failure() {
    let result = QueryResult::failure("id1".to_string(), "Error message".to_string());

    assert!(!result.success);
    assert!(result.data.is_none());
    assert_eq!(result.error, Some("Error message".to_string()));
}

#[test]
fn test_collect_results_preserves_order_and_absorbs_failures() {
    let outcomes: Vec<Result<QueryResult, String>> = vec![
        Ok(QueryResult::success("1".to_string(), "{}".to_string())),
        Err("task cancelled".to_string()),
        Ok(QueryResult::failure("3".to_string(), "bad".to_string())),
    ];

    let results = collect_results(outcomes);

    assert_eq!(results.len(), 3);
    assert_eq!(results[0].id, "1");
    assert!(results[0].success);
    assert_eq!(results[1].id, "unknown");
    assert!(!results[1].success);
    assert_eq!(
        results[1].error,
        Some("Task execution failed: task cancelled".to_string())
    );
    assert_eq!(results[2].id, "3");
    assert!(!results[2].success);
}

#[test]
fn test_empty_pubkeys() {
    let query = Query::with_params(
        "test-1".to_string(),
        RpcMethod::GetMultipleAccounts,
        QueryParams::Keys(vec![]),
    );

    let result = extract_pubkeys(&query);
    assert!(result.is_err());
    assert!(result.unwrap_err().contains("Empty pubkeys"));
}

#[test]
fn test_extract_pubkeys_shapes() {
    let q_text = Query::with_params(
        "a".to_string(),
        RpcMethod::GetMultipleAccounts,
        QueryParams::Text("k1".to_string()),
    );
    assert_eq!(extract_pubkeys(&q_text), Ok(vec!["k1".to_string()]));

    let q_keys = Query::with_params(
        "b".to_string(),
        RpcMethod::GetMultipleAccounts,
        QueryParams::Keys(vec!["k1".to_string(), "k2".to_string()]),
    );
    assert_eq!(
        extract_pubkeys(&q_keys),
        Ok(vec!["k1".to_string(), "k2".to_string()])
    );

    let q_other = Query::with_params(
        "c".to_string(),
        RpcMethod::GetMultipleAccounts,
        QueryParams::Other,
    );
    assert_eq!(
        extract_pubkeys(&q_other),
        Err("Invalid params format, expected array of strings".to_string())
    );

    let q_none = Query::new("d".to_string(), RpcMethod::GetMultipleAccounts, "pk".to_string());
    let q_none = Query {
        params: None,
        ..q_none
    };
    assert_eq!(
        extract_pubkeys(&q_none),
        Err("Missing pubkeys parameter".to_string())
    );
}

#[test]
fn test_effective_commitment() {
    let q = Query::new("a".to_string(), RpcMethod::GetBalance, "pk".to_string());
    assert_eq!(effective_commitment(&q), CommitmentLevel::Confirmed);

    let q2 = Query::new("b".to_string(), RpcMethod::GetBalance, "pk".to_string())
        .with_commitment("finalized".to_string());
    assert_eq!(effective_commitment(&q2), CommitmentLevel::Finalized);

    let q3 = Query::new("c".to_string(), RpcMethod::GetBalance, "pk".to_string())
        .with_commitment("bogus".to_string());
    assert_eq!(effective_commitment(&q3), CommitmentLevel::Confirmed);
}
