use privacy_rpc_proxy::codec::{decode_batch, decode_config, encode_batch};
use privacy_rpc_proxy::ledger::probe_ids;
use privacy_rpc_proxy::records::{OnChainBatch, OnChainBatchStatus};

fn sample_marker() -> Vec<u8> {
    vec![0xAA, 0xBB, 0xCC, 0xDD, 0xEE, 0xFF, 0x11, 0x22]
}

fn sample_batch_buffer() -> Vec<u8> {
    // id=7, status=1 (Finalized), query_count=2, two 32-byte hashes,
    // two 32-byte submitter ids, created_at=1000, finalized_at flag=1
    // value=1050, results_hash flag=0, bump=255.
    let mut data = sample_marker();
    data.extend_from_slice(&7u64.to_le_bytes());
    data.push(1); // status
    data.push(2); // query_count
    data.extend_from_slice(&2u32.to_le_bytes());
    data.extend_from_slice(&[0x01; 32]);
    data.extend_from_slice(&[0x02; 32]);
    data.extend_from_slice(&2u32.to_le_bytes());
    data.extend_from_slice(&[0x03; 32]);
    data.extend_from_slice(&[0x04; 32]);
    data.extend_from_slice(&1000i64.to_le_bytes());
    data.push(1); // finalized_at present
    data.extend_from_slice(&1050i64.to_le_bytes());
    data.push(0); // results_hash absent
    data.push(255); // bump
    data
}

#[test]
fn test_decode_batch_record() {
    let data = sample_batch_buffer();
    let rec = decode_batch(&data).expect("valid buffer must decode");

    assert_eq!(rec.id, 7);
    assert_eq!(rec.status, OnChainBatchStatus::Finalized);
    assert_eq!(rec.query_count, 2);
    assert_eq!(rec.query_hashes.len(), 2);
    assert_eq!(rec.query_hashes[0], vec![0x01; 32]);
    assert_eq!(rec.query_hashes[1], vec![0x02; 32]);
    assert_eq!(rec.submitters.len(), 2);
    assert_eq!(rec.submitters[0], vec![0x03; 32]);
    assert_eq!(rec.submitters[1], vec![0x04; 32]);
    assert_eq!(rec.created_at, 1000);
    assert_eq!(rec.finalized_at, Some(1050));
    assert_eq!(rec.results_hash, None);
    assert_eq!(rec.bump, 255);
}

#[test]
fn test_decode_then_encode_reproduces_bytes() {
    let data = sample_batch_buffer();
    let rec = decode_batch(&data).expect("valid buffer must decode");

    let body = encode_batch(&rec);
    let mut rebuilt = sample_marker();
    rebuilt.extend_from_slice(&body);

    assert_eq!(rebuilt, data);
}

#[test]
fn test_decode_truncated_prefix_fails() {
    let data = sample_batch_buffer();
    for l in 0..data.len() {
        let prefix: Vec<u8> = data[..l].to_vec();
        assert!(
            decode_batch(&prefix).is_none(),
            "strict prefix of length {} must not decode",
            l
        );
    }
}

#[test]
fn test_decode_invalid_status_byte_fails() {
    let mut data = sample_batch_buffer();
    data[16] = 3; // status byte outside {0, 1, 2}
    assert!(decode_batch(&data).is_none());
}

#[test]
fn test_decode_flagged_optional_with_truncated_payload_fails() {
    let mut data = sample_marker();
    data.extend_from_slice(&1u64.to_le_bytes());
    data.push(0); // status Pending
    data.push(0); // query_count
    data.extend_from_slice(&0u32.to_le_bytes());
    data.extend_from_slice(&0u32.to_le_bytes());
    data.extend_from_slice(&123i64.to_le_bytes());
    data.push(1); // finalized_at present …
    data.extend_from_slice(&[0x00; 4]); // … but only half a payload
    assert!(decode_batch(&data).is_none());
}

#[test]
fn test_decode_round_trip_with_results_hash() {
    let rec = OnChainBatch {
        id: 42,
        status: OnChainBatchStatus::Executed,
        query_count: 1,
        query_hashes: vec![vec![0x07; 32]],
        submitters: vec![vec![0x08; 32]],
        created_at: -5,
        finalized_at: Some(-1),
        results_hash: Some(vec![0x09; 32]),
        bump: 254,
    };
    let body = encode_batch(&rec);
    let mut data = sample_marker();
    data.extend_from_slice(&body);

    let back = decode_batch(&data).expect("encoded record must decode");
    assert_eq!(back.id, 42);
    assert_eq!(back.status, OnChainBatchStatus::Executed);
    assert_eq!(back.created_at, -5);
    assert_eq!(back.finalized_at, Some(-1));
    assert_eq!(back.results_hash, Some(vec![0x09; 32]));
    assert_eq!(back.bump, 254);

    assert_eq!(encode_batch(&back), body);
}

#[test]
fn test_decode_config_record() {
    let mut data = sample_marker();
    data.extend_from_slice(&[0x05; 32]); // authority
    data.push(5); // min_batch_size
    data.push(20); // max_batch_size
    data.extend_from_slice(&3u64.to_le_bytes()); // batch_counter
    data.push(253); // bump

    let cfg = decode_config(&data).expect("valid config must decode");
    assert_eq!(cfg.authority, vec![0x05; 32]);
    assert_eq!(cfg.min_batch_size, 5);
    assert_eq!(cfg.max_batch_size, 20);
    assert_eq!(cfg.batch_counter, 3);
    assert_eq!(cfg.bump, 253);

    // This configuration drives a ledger scan over ids 0, 1, 2 only.
    assert_eq!(probe_ids(cfg.batch_counter), vec![0, 1, 2]);
}

#[test]
fn test_decode_config_short_buffer_fails() {
    let mut data = sample_marker();
    data.extend_from_slice(&[0x05; 32]);
    data.push(5);
    data.push(20);
    data.extend_from_slice(&3u64.to_le_bytes());
    // missing bump byte
    assert!(decode_config(&data).is_none());
}
