use privacy_rpc_proxy::crosscheck::{check_fetched_batch, invalid_batch_id_error, parse_batch_id};
use privacy_rpc_proxy::error::ProxyError;
use privacy_rpc_proxy::records::{OnChainBatch, OnChainBatchStatus};

fn batch_with_status(id: u64, status: OnChainBatchStatus) -> OnChainBatch {
    OnChainBatch {
        id,
        status,
        query_count: 0,
        query_hashes: vec![],
        submitters: vec![],
        created_at: 0,
        finalized_at: None,
        results_hash: None,
        bump: 255,
    }
}

#[test]
fn test_parse_batch_id_valid() {
    assert_eq!(parse_batch_id("0"), Some(0));
    assert_eq!(parse_batch_id("42"), Some(42));
    assert_eq!(parse_batch_id("+7"), Some(7));
    assert_eq!(parse_batch_id("007"), Some(7));
    assert_eq!(parse_batch_id("18446744073709551615"), Some(u64::MAX));
}

#[test]
fn test_parse_batch_id_invalid() {
    assert_eq!(parse_batch_id(""), None);
    assert_eq!(parse_batch_id("+"), None);
    assert_eq!(parse_batch_id("abc"), None);
    assert_eq!(parse_batch_id("12x"), None);
    assert_eq!(parse_batch_id("-1"), None);
    assert_eq!(parse_batch_id("18446744073709551616"), None);
}

#[test]
fn test_parse_batch_id_matches_std_parse() {
    for s in ["0", "42", "+7", "", "abc", "12x", "-1", "18446744073709551615", "18446744073709551616"] {
        assert_eq!(parse_batch_id(s), s.parse::<u64>().ok(), "on input {:?}", s);
    }
}

#[test]
fn test_check_fetched_batch_finalized_passes() {
    let b = batch_with_status(3, OnChainBatchStatus::Finalized);
    assert!(check_fetched_batch(3, &Some(b)).is_ok());
}

#[test]
fn test_check_fetched_batch_missing_fails() {
    let r = check_fetched_batch(3, &None);
    match r {
        Err(ProxyError::InvalidQuery(m)) => {
            assert_eq!(m, "Batch 3 not found on-chain");
        }
        _ => panic!("missing batch must be rejected"),
    }
}

#[test]
fn test_check_fetched_batch_not_finalized_fails() {
    let b = batch_with_status(3, OnChainBatchStatus::Pending);
    let r = check_fetched_batch(3, &Some(b));
    match r {
        Err(ProxyError::InvalidQuery(m)) => {
            assert_eq!(m, "Batch 3 is not finalized (status: Pending)");
        }
        _ => panic!("pending batch must be rejected"),
    }
}

#[test]
fn test_invalid_batch_id_error_message() {
    let e = invalid_batch_id_error("zzz");
    match e {
        ProxyError::InvalidQuery(m) => assert_eq!(m, "Invalid batch_id: zzz"),
        _ => panic!("wrong error variant"),
    }
}

#[test]
fn test_on_chain_status_names() {
    assert_eq!(OnChainBatchStatus::Pending.as_str(), "Pending");
    assert_eq!(OnChainBatchStatus::Finalized.as_str(), "Finalized");
    assert_eq!(OnChainBatchStatus::Executed.as_str(), "Executed");
}
