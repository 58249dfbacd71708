use privacy_rpc_proxy::codec::encode_batch;
use std::str::FromStr;
use privacy_rpc_proxy::ledger::{
    batch_address, batch_is_finalized, coordinator_state_address, find_finalized_batches,
    probe_ids, COORDINATOR_PROGRAM_ID,
};
use privacy_rpc_proxy::records::{OnChainBatch, OnChainBatchStatus};

fn batch_with_status(id: u64, status: OnChainBatchStatus) -> OnChainBatch {
    OnChainBatch {
        id,
        status,
        query_count: 0,
        query_hashes: vec![],
        submitters: vec![],
        created_at: 0,
        finalized_at: None,
        results_hash: None,
        bump: 255,
    }
}

fn buffer_for(rec: &OnChainBatch) -> Vec<u8> {
    let mut data = vec![0u8; 8];
    data.extend_from_slice(&encode_batch(rec));
    data
}

#[test]
fn test_probe_ids_covers_counter_range() {
    // A config with batch_counter = 3 drives a scan over ids 0, 1, 2
    // only.
    assert_eq!(probe_ids(3), vec![0, 1, 2]);
    assert_eq!(probe_ids(0), Vec::<u64>::new());
}

#[test]
fn test_find_finalized_batches_filters_snapshot() {
    let finalized = batch_with_status(0, OnChainBatchStatus::Finalized);
    let pending = batch_with_status(1, OnChainBatchStatus::Pending);
    let executed = batch_with_status(2, OnChainBatchStatus::Executed);
    let finalized_late = batch_with_status(4, OnChainBatchStatus::Finalized);

    let snapshot: Vec<Option<Vec<u8>>> = vec![
        Some(buffer_for(&finalized)),
        Some(buffer_for(&pending)),
        Some(buffer_for(&executed)),
        None,                       // account not observed this cycle
        Some(buffer_for(&finalized_late)),
        Some(vec![1, 2, 3]),        // garbage bytes: skipped, not fatal
    ];

    let found = find_finalized_batches(&snapshot);
    assert_eq!(found.len(), 2);
    assert_eq!(found[0].id, 0);
    assert_eq!(found[1].id, 4);
    assert_eq!(found[0].status, OnChainBatchStatus::Finalized);
}

#[test]
fn test_batch_is_finalized() {
    let finalized = batch_with_status(0, OnChainBatchStatus::Finalized);
    let pending = batch_with_status(1, OnChainBatchStatus::Pending);

    assert!(batch_is_finalized(&Some(finalized)));
    assert!(!batch_is_finalized(&Some(pending)));
    assert!(!batch_is_finalized(&None));
}

#[test]
fn test_derived_addresses_match_program_derivation() {
    let program = solana_sdk::pubkey::Pubkey::from_str(COORDINATOR_PROGRAM_ID).unwrap();

    let (expected_state, _) =
        solana_sdk::pubkey::Pubkey::find_program_address(&["coordinator".as_bytes()], &program);
    let state = coordinator_state_address().expect("bump search succeeds");
    assert_eq!(state, expected_state.to_bytes().to_vec());

    let (expected_batch, _) = solana_sdk::pubkey::Pubkey::find_program_address(
        &["batch".as_bytes(), &9u64.to_le_bytes()],
        &program,
    );
    let addr = batch_address(9).expect("bump search succeeds");
    assert_eq!(addr, expected_batch.to_bytes().to_vec());
}
