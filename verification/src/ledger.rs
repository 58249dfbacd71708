//! Ledger client core: deterministic account addresses and the typed
//! reads derived from raw account bytes.
//!
//! Fetching account bytes from the backing RPC endpoint is I/O and
//! lives outside the library. The functions here compute the addresses
//! to read, decide which ids a scan probes, and reconstruct the typed
//! records from whatever bytes a snapshot of the ledger returned.

use vstd::bytes::{spec_u64_to_le_bytes, u64_to_le_bytes};
use vstd::prelude::*;
use vstd::slice::slice_to_vec;
use vstd::string::StringSliceAdditionalSpecFns;
use vstd::utf8::encode_utf8;

use crate::codec::{decode_batch, spec_decode_batch};
use crate::records::{OnChainBatch, OnChainBatchStatus, OnChainBatchView};

verus! {

/// Base58 id of the external coordinator program whose records the
/// proxy reads.
pub const COORDINATOR_PROGRAM_ID: &'static str = "3LsgXZDcRaC3vGq3392WGuEa4AST76m8NPNQCaqDd3n6";

/// What the bump search derives from a seed list under the coordinator
/// program id: the 32-byte address, or nothing in the statistically
/// improbable event that no bump seed works (or the seeds are over the
/// program's limits). The whole outcome — including whether the search
/// succeeds — is deterministic in the seeds; its value is fixed by the
/// trusted wrapper below.
pub uninterp spec fn spec_derived_address(seeds: Seq<Seq<u8>>) -> Option<Seq<u8>>;

/// Relies on solana_sdk's `Pubkey::try_find_program_address` under the
/// fixed coordinator program id: the whole result — success included —
/// is a function of the seeds alone, and a derived address is 32 bytes.
#[verifier::external_body]
fn derive_address(seeds: &Vec<Vec<u8>>) -> (r: Option<Vec<u8>>)
    ensures
        r.deep_view() == spec_derived_address(seeds.deep_view()),
        r matches Some(a) ==> a@.len() == 32,
{
    let program = match <solana_sdk::pubkey::Pubkey as core::str::FromStr>::from_str(
        COORDINATOR_PROGRAM_ID,
    ) {
        Ok(p) => p,
        Err(_) => {
            return None;
        },
    };
    let refs: Vec<&[u8]> = seeds.iter().map(|s| s.as_slice()).collect();
    let (pda, _bump) = solana_sdk::pubkey::Pubkey::try_find_program_address(&refs, &program)?;
    Some(pda.to_bytes().to_vec())
}

/// The domain-separation seed of the coordinator configuration record.
pub open spec fn spec_coordinator_seed() -> Seq<u8> {
    encode_utf8("coordinator"@)
}

/// The domain-separation seeds of the batch record with the given id:
/// the batch tag followed by the id in little-endian bytes.
pub open spec fn spec_batch_seeds(batch_id: u64) -> Seq<Seq<u8>> {
    seq![encode_utf8("batch"@), spec_u64_to_le_bytes(batch_id)]
}

/// The derived address of the coordinator configuration record: the
/// address the bump search yields for the coordinator seed, absent only
/// when that search yields nothing.
pub fn coordinator_state_address() -> (r: Option<Vec<u8>>)
    ensures
        r.deep_view() == spec_derived_address(seq![spec_coordinator_seed()]),
        r matches Some(a) ==> a@.len() == 32,
{
    let tag = slice_to_vec("coordinator".as_bytes());
    let mut seeds: Vec<Vec<u8>> = Vec::new();
    seeds.push(tag);
    proof {
        assert(seeds.deep_view() =~~= seq![spec_coordinator_seed()]);
    }
    derive_address(&seeds)
}

/// The derived address of the batch record with the given id: the
/// address the bump search yields for the batch seeds, absent only when
/// that search yields nothing.
pub fn batch_address(batch_id: u64) -> (r: Option<Vec<u8>>)
    ensures
        r.deep_view() == spec_derived_address(spec_batch_seeds(batch_id)),
        r matches Some(a) ==> a@.len() == 32,
{
    let tag = slice_to_vec("batch".as_bytes());
    let id_bytes = u64_to_le_bytes(batch_id);
    let mut seeds: Vec<Vec<u8>> = Vec::new();
    seeds.push(tag);
    seeds.push(id_bytes);
    proof {
        assert(seeds.deep_view() =~~= spec_batch_seeds(batch_id));
    }
    derive_address(&seeds)
}

/// The ids a ledger scan probes, given the configuration's batch
/// counter: exactly 0, 1, …, counter − 1, in order. The scan is a
/// snapshot, not a subscription.
pub fn probe_ids(batch_counter: u64) -> (r: Vec<u64>)
    requires
        batch_counter <= usize::MAX as u64,
    ensures
        r@.len() == batch_counter,
        forall|i: int| 0 <= i < batch_counter ==> r@[i] == i as u64,
{
    let mut r: Vec<u64> = Vec::new();
    let mut i: u64 = 0;
    while i < batch_counter
        invariant
            i <= batch_counter,
            r@.len() == i,
            forall|j: int| 0 <= j < i ==> r@[j] == j as u64,
        decreases batch_counter - i,
    {
        r.push(i);
        i = i + 1;
    }
    r
}

/// What one snapshot entry contributes to the scan's result: the
/// decoded record when the account was observed, decoded, and is
/// finalized; nothing otherwise. A read or decode failure is "not
/// observed this cycle", never fatal.
pub open spec fn spec_batch_contribution(account: Option<Seq<u8>>) -> Seq<OnChainBatchView> {
    match account {
        Some(bytes) => match spec_decode_batch(bytes) {
            Some(rec) => if rec.status is Finalized {
                seq![rec]
            } else {
                Seq::empty()
            },
            None => Seq::empty(),
        },
        None => Seq::empty(),
    }
}

/// The finalized batches in a snapshot of account bytes, in snapshot
/// order.
pub open spec fn spec_finalized_from(accounts: Seq<Option<Seq<u8>>>) -> Seq<OnChainBatchView>
    decreases accounts.len(),
{
    if accounts.len() == 0 {
        Seq::empty()
    } else {
        spec_finalized_from(accounts.drop_last()) + spec_batch_contribution(accounts.last())
    }
}

/// The views of a sequence of batch records.
pub open spec fn batch_views_of(rs: Seq<OnChainBatch>) -> Seq<OnChainBatchView> {
    rs.map_values(|b: OnChainBatch| b@)
}

/// Reconstruct the finalized batches from a snapshot of raw account
/// bytes, one entry per probed id: entries that were absent, failed to
/// decode, or are not finalized are skipped, never fatal.
pub fn find_finalized_batches(accounts: &Vec<Option<Vec<u8>>>) -> (r: Vec<OnChainBatch>)
    ensures
        batch_views_of(r@) == spec_finalized_from(accounts.deep_view()),
{
    let ghost av = accounts.deep_view();
    let mut r: Vec<OnChainBatch> = Vec::new();
    let mut i: usize = 0;
    proof {
        assert(av.take(0) =~= Seq::<Option<Seq<u8>>>::empty());
        assert(batch_views_of(r@) =~= spec_finalized_from(av.take(0)));
    }
    while i < accounts.len()
        invariant
            i <= accounts.len(),
            av == accounts.deep_view(),
            av.len() == accounts.len(),
            batch_views_of(r@) == spec_finalized_from(av.take(i as int)),
        decreases accounts.len() - i,
    {
        let ghost r_before = r@;
        proof {
            assert(av[i as int] == accounts@[i as int].deep_view());
        }
        match &accounts[i] {
            Some(bytes) => {
                proof {
                    assert(bytes.deep_view() =~= bytes@);
                    assert(av[i as int] == Some(bytes@));
                }
                match decode_batch(bytes) {
                    Some(rec) => {
                        if rec.status.to_byte() == 1 {
                            proof {
                                assert(rec@.status is Finalized);
                                assert(spec_batch_contribution(av[i as int]) == seq![rec@]);
                            }
                            r.push(rec);
                            proof {
                                assert(batch_views_of(r@) =~= batch_views_of(r_before).push(
                                    r@[r@.len() - 1]@,
                                ));
                            }
                        } else {
                            proof {
                                assert(!(rec@.status is Finalized));
                                assert(spec_batch_contribution(av[i as int])
                                    == Seq::<OnChainBatchView>::empty());
                            }
                        }
                    },
                    None => {
                        proof {
                            assert(spec_batch_contribution(av[i as int])
                                == Seq::<OnChainBatchView>::empty());
                        }
                    },
                }
            },
            None => {
                proof {
                    assert(av[i as int] is None);
                    assert(spec_batch_contribution(av[i as int])
                        == Seq::<OnChainBatchView>::empty());
                }
            },
        }
        proof {
            let s1 = av.take(i + 1);
            assert(s1.drop_last() =~= av.take(i as int));
            assert(s1.last() == av[i as int]);
            assert(batch_views_of(r@) =~= spec_finalized_from(s1));
        }
        i = i + 1;
    }
    proof {
        assert(av.take(accounts.len() as int) =~= av);
    }
    r
}

/// Whether a fetched batch exists and is finalized on the ledger.
pub fn batch_is_finalized(fetched: &Option<OnChainBatch>) -> (r: bool)
    ensures
        r == (fetched matches Some(b) && b@.status is Finalized),
{
    match fetched {
        Some(b) => b.status.to_byte() == 1,
        None => false,
    }
}

} // verus!
