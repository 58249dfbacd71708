use privacy_rpc_proxy::enums::{BatchStatus, CommitmentLevel, RpcMethod, DEFAULT_COMMITMENT};
use privacy_rpc_proxy::records::OnChainBatchStatus;

#[test]
fn test_batch_status_parsing() {
    assert_eq!(
        OnChainBatchStatus::of_byte(0u8),
        Some(OnChainBatchStatus::Pending)
    );
}

#[test]
fn test_batch_status_is_terminal() {
    assert!(!BatchStatus::Pending.is_terminal());
    assert!(!BatchStatus::Executing.is_terminal());
    assert!(BatchStatus::Completed.is_terminal());
    assert!(BatchStatus::Failed.is_terminal());
    assert!(BatchStatus::Cancelled.is_terminal());
}

#[test]
fn test_batch_status_is_active() {
    assert!(BatchStatus::Pending.is_active());
    assert!(BatchStatus::Executing.is_active());
    assert!(!BatchStatus::Completed.is_active());
    assert!(!BatchStatus::Failed.is_active());
    assert!(!BatchStatus::Cancelled.is_active());
}

#[test]
fn test_batch_status_display() {
    assert_eq!(BatchStatus::Pending.as_str(), "pending");
    assert_eq!(BatchStatus::Executing.as_str(), "executing");
}

#[test]
fn test_commitment_level_as_str() {
    assert_eq!(CommitmentLevel::Processed.as_str(), "processed");
    assert_eq!(CommitmentLevel::Confirmed.as_str(), "confirmed");
    assert_eq!(CommitmentLevel::Finalized.as_str(), "finalized");
}

#[test]
fn test_commitment_level_from_str() {
    assert_eq!(
        CommitmentLevel::from_str("processed"),
        Some(CommitmentLevel::Processed)
    );
    assert_eq!(
        CommitmentLevel::from_str("confirmed"),
        Some(CommitmentLevel::Confirmed)
    );
    assert_eq!(
        CommitmentLevel::from_str("finalized"),
        Some(CommitmentLevel::Finalized)
    );
    assert_eq!(CommitmentLevel::from_str("invalid"), None);
}

#[test]
fn test_commitment_level_default() {
    let default = CommitmentLevel::default();
    assert_eq!(default, CommitmentLevel::Confirmed);
    assert_eq!(DEFAULT_COMMITMENT, CommitmentLevel::Confirmed);
}

#[test]
fn test_rpc_method_as_str() {
    assert_eq!(RpcMethod::GetAccountInfo.as_str(), "getAccountInfo");
    assert_eq!(RpcMethod::GetBalance.as_str(), "getBalance");
}

#[test]
fn test_rpc_method_from_str() {
    assert_eq!(RpcMethod::from_str("getBalance"), Some(RpcMethod::GetBalance));
    assert_eq!(
        RpcMethod::from_str("getAccountInfo"),
        Some(RpcMethod::GetAccountInfo)
    );
    assert_eq!(RpcMethod::from_str("invalid"), None);
}

#[test]
fn test_rpc_method_all() {
    let methods = RpcMethod::all();
    assert_eq!(methods.len(), 6);
    assert!(methods.contains(&RpcMethod::GetBalance));
    assert!(methods.contains(&RpcMethod::GetAccountInfo));
    assert!(methods.contains(&RpcMethod::GetTransaction));
    assert!(methods.contains(&RpcMethod::GetTokenAccountBalance));
    assert!(methods.contains(&RpcMethod::GetBlockHeight));
    assert!(methods.contains(&RpcMethod::GetMultipleAccounts));
}

#[test]
fn test_rpc_method_display() {
    assert_eq!(format!("{}", RpcMethod::GetBalance.as_str()), "getBalance");
}

#[test]
fn test_on_chain_status_bytes() {
    assert_eq!(
        OnChainBatchStatus::of_byte(1),
        Some(OnChainBatchStatus::Finalized)
    );
    assert_eq!(
        OnChainBatchStatus::of_byte(2),
        Some(OnChainBatchStatus::Executed)
    );
    assert_eq!(OnChainBatchStatus::of_byte(3), None);
    assert_eq!(OnChainBatchStatus::Pending.to_byte(), 0);
    assert_eq!(OnChainBatchStatus::Finalized.to_byte(), 1);
    assert_eq!(OnChainBatchStatus::Executed.to_byte(), 2);
}
