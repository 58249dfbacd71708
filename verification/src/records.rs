//! Typed views of the two ledger account records the proxy reads: the
//! coordinator configuration singleton and a batch record.

use vstd::prelude::*;

verus! {

/// Status of a batch as recorded on the ledger.
#[derive(Debug, Clone, Copy, PartialEq, Eq, Structural)]
pub enum OnChainBatchStatus {
    /// The batch is accepting query submissions.
    Pending,
    /// The batch reached its size floor and was finalized for execution.
    Finalized,
    /// The batch was executed and carries a results hash.
    Executed,
}

impl OnChainBatchStatus {
    /// The wire byte for this status.
    pub open spec fn spec_byte(self) -> u8 {
        match self {
            OnChainBatchStatus::Pending => 0,
            OnChainBatchStatus::Finalized => 1,
            OnChainBatchStatus::Executed => 2,
        }
    }

    /// The status a wire byte stands for, if any.
    pub open spec fn spec_of_byte(b: u8) -> Option<OnChainBatchStatus> {
        if b == 0 {
            Some(OnChainBatchStatus::Pending)
        } else if b == 1 {
            Some(OnChainBatchStatus::Finalized)
        } else if b == 2 {
            Some(OnChainBatchStatus::Executed)
        } else {
            None
        }
    }

    /// Encode this status as its wire byte.
    pub fn to_byte(&self) -> (r: u8)
        ensures
            r == self.spec_byte(),
    {
        match self {
            OnChainBatchStatus::Pending => 0,
            OnChainBatchStatus::Finalized => 1,
            OnChainBatchStatus::Executed => 2,
        }
    }

    /// Decode a wire byte into a status; bytes outside {0, 1, 2} are invalid.
    pub fn of_byte(b: u8) -> (r: Option<OnChainBatchStatus>)
        ensures
            r == OnChainBatchStatus::spec_of_byte(b),
    {
        if b == 0 {
            Some(OnChainBatchStatus::Pending)
        } else if b == 1 {
            Some(OnChainBatchStatus::Finalized)
        } else if b == 2 {
            Some(OnChainBatchStatus::Executed)
        } else {
            None
        }
    }
}

/// Mathematical model of a batch record.
pub struct OnChainBatchView {
    pub id: u64,
    pub status: OnChainBatchStatus,
    pub query_count: u8,
    pub query_hashes: Seq<Seq<u8>>,
    pub submitters: Seq<Seq<u8>>,
    pub created_at: i64,
    pub finalized_at: Option<i64>,
    pub results_hash: Option<Seq<u8>>,
    pub bump: u8,
}

impl OnChainBatchView {
    /// An encodable batch record: list lengths fit in a `u32` length
    /// prefix, and every hash, submitter id and results hash is exactly
    /// 32 bytes.
    pub open spec fn wf(self) -> bool {
        &&& self.query_hashes.len() <= u32::MAX
        &&& self.submitters.len() <= u32::MAX
        &&& forall|i: int| 0 <= i < self.query_hashes.len() ==> (#[trigger] self.query_hashes[i]).len() == 32
        &&& forall|i: int| 0 <= i < self.submitters.len() ==> (#[trigger] self.submitters[i]).len() == 32
        &&& match self.results_hash {
            Some(h) => h.len() == 32,
            None => true,
        }
    }
}

/// A batch record reconstructed from ledger account bytes.
#[derive(Debug, Clone)]
pub struct OnChainBatch {
    /// Batch id.
    pub id: u64,
    /// Current status.
    pub status: OnChainBatchStatus,
    /// Number of queries recorded in this batch.
    pub query_count: u8,
    /// Query hashes, 32 bytes each.
    pub query_hashes: Vec<Vec<u8>>,
    /// Submitter id for each query, 32 bytes each.
    pub submitters: Vec<Vec<u8>>,
    /// Timestamp when the batch was created.
    pub created_at: i64,
    /// Timestamp when the batch was finalized, once it is.
    pub finalized_at: Option<i64>,
    /// Hash of the execution results, once the batch is executed.
    pub results_hash: Option<Vec<u8>>,
    /// Bump seed of the record's derived address.
    pub bump: u8,
}

impl View for OnChainBatch {
    type V = OnChainBatchView;

    open spec fn view(&self) -> OnChainBatchView {
        OnChainBatchView {
            id: self.id,
            status: self.status,
            query_count: self.query_count,
            query_hashes: self.query_hashes.deep_view(),
            submitters: self.submitters.deep_view(),
            created_at: self.created_at,
            finalized_at: self.finalized_at,
            results_hash: match self.results_hash {
                Some(ref h) => Some(h@),
                None => None,
            },
            bump: self.bump,
        }
    }
}

/// Mathematical model of the coordinator configuration record.
pub struct CoordinatorConfigView {
    pub authority: Seq<u8>,
    pub min_batch_size: u8,
    pub max_batch_size: u8,
    pub batch_counter: u64,
    pub bump: u8,
}

/// The coordinator configuration singleton read from the ledger.
#[derive(Debug, Clone)]
pub struct CoordinatorConfig {
    /// Authority id, 32 bytes.
    pub authority: Vec<u8>,
    /// Minimum queries required per batch (k-anonymity parameter).
    pub min_batch_size: u8,
    /// Maximum queries allowed per batch.
    pub max_batch_size: u8,
    /// Number of batches created so far; batch ids range over
    /// `[0, batch_counter)`.
    pub batch_counter: u64,
    /// Bump seed of the record's derived address.
    pub bump: u8,
}

impl View for CoordinatorConfig {
    type V = CoordinatorConfigView;

    open spec fn view(&self) -> CoordinatorConfigView {
        CoordinatorConfigView {
            authority: self.authority@,
            min_batch_size: self.min_batch_size,
            max_batch_size: self.max_batch_size,
            batch_counter: self.batch_counter,
            bump: self.bump,
        }
    }
}

} // verus!
