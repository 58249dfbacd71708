//! Bounds-checked binary decoding and encoding of the two ledger account
//! records.
//!
//! The byte layouts are little-endian. Every record starts with an
//! 8-byte marker that belongs to the external ledger program; it is
//! skipped, never interpreted. Decoding fails — returning nothing, never
//! a partial record — when the buffer is shorter than a field about to
//! be read, when the status byte is invalid, or when a flagged-optional
//! field announces a payload that is truncated.

use vstd::bytes::*;
use vstd::prelude::*;
use vstd::slice::*;

use crate::records::{
    CoordinatorConfig, CoordinatorConfigView, OnChainBatch, OnChainBatchStatus, OnChainBatchView,
};

verus! {

/// Length of the opaque marker prefix that the external program puts in
/// front of every record.
pub const MARKER_LEN: usize = 8;

// ---------------------------------------------------------------------
// Specification-level cursor reads.
//
// Each read takes the buffer and an offset and yields the value read
// together with the offset just past it, or nothing when the read would
// run off the end of the buffer.
// ---------------------------------------------------------------------

/// Read `n` raw bytes at offset `o`.
pub open spec fn spec_read_bytes(b: Seq<u8>, o: int, n: int) -> Option<(Seq<u8>, int)> {
    if 0 <= o && 0 <= n && o + n <= b.len() {
        Some((b.subrange(o, o + n), o + n))
    } else {
        None
    }
}

/// Read one byte at offset `o`.
pub open spec fn spec_read_u8(b: Seq<u8>, o: int) -> Option<(u8, int)> {
    if 0 <= o && o + 1 <= b.len() {
        Some((b[o], o + 1))
    } else {
        None
    }
}

/// Read a little-endian `u32` at offset `o`.
pub open spec fn spec_read_u32le(b: Seq<u8>, o: int) -> Option<(u32, int)> {
    match spec_read_bytes(b, o, 4) {
        Some((s, o2)) => Some((spec_u32_from_le_bytes(s), o2)),
        None => None,
    }
}

/// Read a little-endian `u64` at offset `o`.
pub open spec fn spec_read_u64le(b: Seq<u8>, o: int) -> Option<(u64, int)> {
    match spec_read_bytes(b, o, 8) {
        Some((s, o2)) => Some((spec_u64_from_le_bytes(s), o2)),
        None => None,
    }
}

/// Read a little-endian `i64` (two's complement) at offset `o`.
pub open spec fn spec_read_i64le(b: Seq<u8>, o: int) -> Option<(i64, int)> {
    match spec_read_u64le(b, o) {
        Some((v, o2)) => Some((v as i64, o2)),
        None => None,
    }
}

/// Read a list of `n` 32-byte items at offset `o`.
pub open spec fn spec_read_hash_list(b: Seq<u8>, o: int, n: nat) -> Option<(Seq<Seq<u8>>, int)>
    decreases n,
{
    if n == 0 {
        Some((Seq::empty(), o))
    } else {
        match spec_read_bytes(b, o, 32) {
            Some((h, o2)) => match spec_read_hash_list(b, o2, (n - 1) as nat) {
                Some((rest, oe)) => Some((seq![h] + rest, oe)),
                None => None,
            },
            None => None,
        }
    }
}

/// Read a flag byte and, when the flag is 1, a little-endian `i64`
/// payload.
pub open spec fn spec_read_opt_i64(b: Seq<u8>, o: int) -> Option<(Option<i64>, int)> {
    match spec_read_u8(b, o) {
        Some((flag, o2)) => {
            if flag == 1 {
                match spec_read_i64le(b, o2) {
                    Some((v, o3)) => Some((Some(v), o3)),
                    None => None,
                }
            } else {
                Some((None, o2))
            }
        },
        None => None,
    }
}

/// Read a flag byte and, when the flag is 1, a 32-byte payload.
pub open spec fn spec_read_opt_hash(b: Seq<u8>, o: int) -> Option<(Option<Seq<u8>>, int)> {
    match spec_read_u8(b, o) {
        Some((flag, o2)) => {
            if flag == 1 {
                match spec_read_bytes(b, o2, 32) {
                    Some((h, o3)) => Some((Some(h), o3)),
                    None => None,
                }
            } else {
                Some((None, o2))
            }
        },
        None => None,
    }
}

// ---------------------------------------------------------------------
// Specification-level record decoders.
// ---------------------------------------------------------------------

/// Decode a coordinator configuration record. Layout after the marker:
/// authority (32B) · min_batch_size (u8) · max_batch_size (u8) ·
/// batch_counter (u64) · bump (u8).
pub open spec fn spec_decode_config(b: Seq<u8>) -> Option<CoordinatorConfigView> {
    match spec_read_bytes(b, MARKER_LEN as int, 32) {
        None => None,
        Some((authority, o1)) => match spec_read_u8(b, o1) {
            None => None,
            Some((min_batch_size, o2)) => match spec_read_u8(b, o2) {
                None => None,
                Some((max_batch_size, o3)) => match spec_read_u64le(b, o3) {
                    None => None,
                    Some((batch_counter, o4)) => match spec_read_u8(b, o4) {
                        None => None,
                        Some((bump, _o5)) => Some(
                            CoordinatorConfigView {
                                authority,
                                min_batch_size,
                                max_batch_size,
                                batch_counter,
                                bump,
                            },
                        ),
                    },
                },
            },
        },
    }
}

/// Decode a batch record, yielding the record together with the offset
/// just past the last field read. Layout after the marker: id (u64) ·
/// status (u8 in {0, 1, 2}) · query_count (u8) · query_hashes (u32
/// length + length × 32B) · submitters (u32 length + length × 32B) ·
/// created_at (i64) · finalized_at (u8 flag + optional i64) ·
/// results_hash (u8 flag + optional 32B) · bump (u8).
pub open spec fn spec_decode_batch_full(b: Seq<u8>) -> Option<(OnChainBatchView, int)> {
    match spec_read_u64le(b, MARKER_LEN as int) {
        None => None,
        Some((id, o1)) => match spec_read_u8(b, o1) {
            None => None,
            Some((status_byte, o2)) => match OnChainBatchStatus::spec_of_byte(status_byte) {
                None => None,
                Some(status) => match spec_read_u8(b, o2) {
                    None => None,
                    Some((query_count, o3)) => match spec_read_u32le(b, o3) {
                        None => None,
                        Some((hashes_len, o4)) => match spec_read_hash_list(
                            b,
                            o4,
                            hashes_len as nat,
                        ) {
                            None => None,
                            Some((query_hashes, o5)) => match spec_read_u32le(b, o5) {
                                None => None,
                                Some((submitters_len, o6)) => match spec_read_hash_list(
                                    b,
                                    o6,
                                    submitters_len as nat,
                                ) {
                                    None => None,
                                    Some((submitters, o7)) => match spec_read_i64le(b, o7) {
                                        None => None,
                                        Some((created_at, o8)) => match spec_read_opt_i64(b, o8) {
                                            None => None,
                                            Some((finalized_at, o9)) => match spec_read_opt_hash(
                                                b,
                                                o9,
                                            ) {
                                                None => None,
                                                Some((results_hash, o10)) => match spec_read_u8(
                                                    b,
                                                    o10,
                                                ) {
                                                    None => None,
                                                    Some((bump, o11)) => Some(
                                                        (
                                                            OnChainBatchView {
                                                                id,
                                                                status,
                                                                query_count,
                                                                query_hashes,
                                                                submitters,
                                                                created_at,
                                                                finalized_at,
                                                                results_hash,
                                                                bump,
                                                            },
                                                            o11,
                                                        ),
                                                    ),
                                                },
                                            },
                                        },
                                    },
                                },
                            },
                        },
                    },
                },
            },
        },
    }
}

/// Decode a batch record.
pub open spec fn spec_decode_batch(b: Seq<u8>) -> Option<OnChainBatchView> {
    match spec_decode_batch_full(b) {
        Some((r, _end)) => Some(r),
        None => None,
    }
}

// ---------------------------------------------------------------------
// Executable cursor reads.
// ---------------------------------------------------------------------

/// Read `n` raw bytes at offset `o`.
fn read_bytes(data: &Vec<u8>, o: usize, n: usize) -> (r: Option<(Vec<u8>, usize)>)
    ensures
        match r {
            Some((v, o2)) => {
                &&& spec_read_bytes(data@, o as int, n as int) == Some((v@, o2 as int))
                &&& o2 <= data@.len()
            },
            None => spec_read_bytes(data@, o as int, n as int) is None,
        },
{
    if n <= data.len() && o <= data.len() - n {
        let s = slice_subrange(data.as_slice(), o, o + n);
        Some((slice_to_vec(s), o + n))
    } else {
        None
    }
}

/// Read one byte at offset `o`.
fn read_u8(data: &Vec<u8>, o: usize) -> (r: Option<(u8, usize)>)
    ensures
        match r {
            Some((v, o2)) => {
                &&& spec_read_u8(data@, o as int) == Some((v, o2 as int))
                &&& o2 <= data@.len()
            },
            None => spec_read_u8(data@, o as int) is None,
        },
{
    if o < data.len() {
        Some((data[o], o + 1))
    } else {
        None
    }
}

/// Read a little-endian `u32` at offset `o`.
fn read_u32le(data: &Vec<u8>, o: usize) -> (r: Option<(u32, usize)>)
    ensures
        match r {
            Some((v, o2)) => {
                &&& spec_read_u32le(data@, o as int) == Some((v, o2 as int))
                &&& o2 <= data@.len()
            },
            None => spec_read_u32le(data@, o as int) is None,
        },
{
    if 4 <= data.len() && o <= data.len() - 4 {
        let s = slice_subrange(data.as_slice(), o, o + 4);
        let v = u32_from_le_bytes(s);
        Some((v, o + 4))
    } else {
        None
    }
}

/// Read a little-endian `u64` at offset `o`.
fn read_u64le(data: &Vec<u8>, o: usize) -> (r: Option<(u64, usize)>)
    ensures
        match r {
            Some((v, o2)) => {
                &&& spec_read_u64le(data@, o as int) == Some((v, o2 as int))
                &&& o2 <= data@.len()
            },
            None => spec_read_u64le(data@, o as int) is None,
        },
{
    if 8 <= data.len() && o <= data.len() - 8 {
        let s = slice_subrange(data.as_slice(), o, o + 8);
        let v = u64_from_le_bytes(s);
        Some((v, o + 8))
    } else {
        None
    }
}

/// Read a little-endian `i64` at offset `o`.
fn read_i64le(data: &Vec<u8>, o: usize) -> (r: Option<(i64, usize)>)
    ensures
        match r {
            Some((v, o2)) => {
                &&& spec_read_i64le(data@, o as int) == Some((v, o2 as int))
                &&& o2 <= data@.len()
            },
            None => spec_read_i64le(data@, o as int) is None,
        },
{
    match read_u64le(data, o) {
        Some((v, o2)) => Some((v as i64, o2)),
        None => None,
    }
}

/// Reading `n` items starting at `o` is the same as reading the first
/// `m` items and then the remaining `n - m` from where they end.
pub proof fn lemma_read_hash_list_split(b: Seq<u8>, o: int, m: nat, n: nat)
    requires
        m <= n,
    ensures
        spec_read_hash_list(b, o, n) == (match spec_read_hash_list(b, o, m) {
            None => None::<(Seq<Seq<u8>>, int)>,
            Some((v1, o1)) => match spec_read_hash_list(b, o1, (n - m) as nat) {
                None => None::<(Seq<Seq<u8>>, int)>,
                Some((v2, oe)) => Some((v1 + v2, oe)),
            },
        }),
    decreases m,
{
    if m == 0 {
        match spec_read_hash_list(b, o, n) {
            Some((v2, oe)) => {
                assert(Seq::<Seq<u8>>::empty() + v2 =~= v2);
            },
            None => {},
        }
    } else {
        match spec_read_bytes(b, o, 32) {
            Some((h, o2)) => {
                lemma_read_hash_list_split(b, o2, (m - 1) as nat, (n - 1) as nat);
                match spec_read_hash_list(b, o2, (m - 1) as nat) {
                    Some((v1r, o1)) => {
                        match spec_read_hash_list(b, o1, (n - m) as nat) {
                            Some((v2, oe)) => {
                                assert(seq![h] + (v1r + v2) =~= (seq![h] + v1r) + v2);
                            },
                            None => {},
                        }
                    },
                    None => {},
                }
            },
            None => {},
        }
    }
}

/// Read a list of `n` 32-byte items at offset `o`.
fn read_hash_list(data: &Vec<u8>, o: usize, n: u32) -> (r: Option<(Vec<Vec<u8>>, usize)>)
    ensures
        match r {
            Some((hs, o2)) => spec_read_hash_list(data@, o as int, n as nat) == Some(
                (hs.deep_view(), o2 as int),
            ),
            None => spec_read_hash_list(data@, o as int, n as nat) is None,
        },
{
    let mut acc: Vec<Vec<u8>> = Vec::new();
    let mut cur = o;
    let mut i: u32 = 0;
    proof {
        assert(acc.deep_view() =~= Seq::<Seq<u8>>::empty());
    }
    while i < n
        invariant
            i <= n,
            spec_read_hash_list(data@, o as int, i as nat) == Some(
                (acc.deep_view(), cur as int),
            ),
        decreases n - i,
    {
        match read_bytes(data, cur, 32) {
            Some((h, c2)) => {
                proof {
                    lemma_read_hash_list_split(data@, o as int, i as nat, (i + 1) as nat);
                    assert(spec_read_hash_list(data@, c2 as int, 0nat) == Some(
                        (Seq::<Seq<u8>>::empty(), c2 as int),
                    ));
                    assert(spec_read_hash_list(data@, cur as int, 1nat) == Some(
                        (seq![h@] + Seq::<Seq<u8>>::empty(), c2 as int),
                    ));
                    assert(seq![h@] + Seq::<Seq<u8>>::empty() =~= seq![h@]);
                    assert(h.deep_view() =~= h@);
                }
                let ghost old_acc = acc;
                acc.push(h);
                proof {
                    assert(acc.deep_view() =~= old_acc.deep_view() + seq![h@]);
                }
                cur = c2;
                i = i + 1;
            },
            None => {
                proof {
                    lemma_read_hash_list_split(data@, o as int, i as nat, n as nat);
                }
                return None;
            },
        }
    }
    Some((acc, cur))
}

/// Read a flag byte and, when the flag is 1, a little-endian `i64`
/// payload.
fn read_opt_i64(data: &Vec<u8>, o: usize) -> (r: Option<(Option<i64>, usize)>)
    ensures
        match r {
            Some((v, o2)) => {
                &&& spec_read_opt_i64(data@, o as int) == Some((v, o2 as int))
                &&& o2 <= data@.len()
            },
            None => spec_read_opt_i64(data@, o as int) is None,
        },
{
    match read_u8(data, o) {
        Some((flag, o2)) => {
            if flag == 1 {
                match read_i64le(data, o2) {
                    Some((v, o3)) => Some((Some(v), o3)),
                    None => None,
                }
            } else {
                Some((None, o2))
            }
        },
        None => None,
    }
}

/// Read a flag byte and, when the flag is 1, a 32-byte payload.
fn read_opt_hash(data: &Vec<u8>, o: usize) -> (r: Option<(Option<Vec<u8>>, usize)>)
    ensures
        match r {
            Some((v, o2)) => {
                &&& spec_read_opt_hash(data@, o as int) == Some((v.deep_view(), o2 as int))
                &&& o2 <= data@.len()
            },
            None => spec_read_opt_hash(data@, o as int) is None,
        },
{
    match read_u8(data, o) {
        Some((flag, o2)) => {
            if flag == 1 {
                match read_bytes(data, o2, 32) {
                    Some((h, o3)) => Some((Some(h), o3)),
                    None => None,
                }
            } else {
                Some((None, o2))
            }
        },
        None => None,
    }
}

/// Decode a batch record from raw account bytes.
pub fn decode_batch(data: &Vec<u8>) -> (r: Option<OnChainBatch>)
    ensures
        match r {
            Some(rec) => spec_decode_batch(data@) == Some(rec@),
            None => spec_decode_batch(data@) is None,
        },
{
    let (id, o1) = match read_u64le(data, MARKER_LEN) {
        Some(x) => x,
        None => {
            return None;
        },
    };
    let (status_byte, o2) = match read_u8(data, o1) {
        Some(x) => x,
        None => {
            return None;
        },
    };
    let status = match OnChainBatchStatus::of_byte(status_byte) {
        Some(s) => s,
        None => {
            return None;
        },
    };
    let (query_count, o3) = match read_u8(data, o2) {
        Some(x) => x,
        None => {
            return None;
        },
    };
    let (hashes_len, o4) = match read_u32le(data, o3) {
        Some(x) => x,
        None => {
            return None;
        },
    };
    let (query_hashes, o5) = match read_hash_list(data, o4, hashes_len) {
        Some(x) => x,
        None => {
            return None;
        },
    };
    let (submitters_len, o6) = match read_u32le(data, o5) {
        Some(x) => x,
        None => {
            return None;
        },
    };
    let (submitters, o7) = match read_hash_list(data, o6, submitters_len) {
        Some(x) => x,
        None => {
            return None;
        },
    };
    let (created_at, o8) = match read_i64le(data, o7) {
        Some(x) => x,
        None => {
            return None;
        },
    };
    let (finalized_at, o9) = match read_opt_i64(data, o8) {
        Some(x) => x,
        None => {
            return None;
        },
    };
    let (results_hash, o10) = match read_opt_hash(data, o9) {
        Some(x) => x,
        None => {
            return None;
        },
    };
    let (bump, _o11) = match read_u8(data, o10) {
        Some(x) => x,
        None => {
            return None;
        },
    };
    let rec = OnChainBatch {
        id,
        status,
        query_count,
        query_hashes,
        submitters,
        created_at,
        finalized_at,
        results_hash,
        bump,
    };
    proof {
        match rec.results_hash {
            Some(ref h) => {
                assert(rec@.results_hash == rec.results_hash.deep_view());
            },
            None => {
                assert(rec@.results_hash == rec.results_hash.deep_view());
            },
        }
    }
    Some(rec)
}

/// Decode a coordinator configuration record from raw account bytes.
pub fn decode_config(data: &Vec<u8>) -> (r: Option<CoordinatorConfig>)
    ensures
        match r {
            Some(cfg) => spec_decode_config(data@) == Some(cfg@),
            None => spec_decode_config(data@) is None,
        },
{
    let (authority, o1) = match read_bytes(data, MARKER_LEN, 32) {
        Some(x) => x,
        None => {
            return None;
        },
    };
    let (min_batch_size, o2) = match read_u8(data, o1) {
        Some(x) => x,
        None => {
            return None;
        },
    };
    let (max_batch_size, o3) = match read_u8(data, o2) {
        Some(x) => x,
        None => {
            return None;
        },
    };
    let (batch_counter, o4) = match read_u64le(data, o3) {
        Some(x) => x,
        None => {
            return None;
        },
    };
    let (bump, _o5) = match read_u8(data, o4) {
        Some(x) => x,
        None => {
            return None;
        },
    };
    Some(CoordinatorConfig { authority, min_batch_size, max_batch_size, batch_counter, bump })
}

// ---------------------------------------------------------------------
// Encoding.
// ---------------------------------------------------------------------

/// Concatenation of a list of byte strings.
pub open spec fn spec_cat(hs: Seq<Seq<u8>>) -> Seq<u8>
    decreases hs.len(),
{
    if hs.len() == 0 {
        Seq::empty()
    } else {
        hs[0] + spec_cat(hs.drop_first())
    }
}

/// A list of 32-byte items concatenates to 32 times as many bytes.
pub proof fn lemma_cat_len32(hs: Seq<Seq<u8>>)
    requires
        forall|i: int| 0 <= i < hs.len() ==> (#[trigger] hs[i]).len() == 32,
    ensures
        spec_cat(hs).len() == 32 * hs.len(),
    decreases hs.len(),
{
    if hs.len() > 0 {
        lemma_cat_len32(hs.drop_first());
    }
}

/// Concatenation distributes over appending one item at the end.
pub proof fn lemma_cat_push(hs: Seq<Seq<u8>>, x: Seq<u8>)
    ensures
        spec_cat(hs.push(x)) == spec_cat(hs) + x,
    decreases hs.len(),
{
    if hs.len() == 0 {
        assert(hs.push(x).drop_first() =~= Seq::<Seq<u8>>::empty());
        assert(spec_cat(hs.push(x)) == hs.push(x)[0] + spec_cat(hs.push(x).drop_first()));
        assert(hs.push(x)[0] == x);
        assert(spec_cat(Seq::<Seq<u8>>::empty()) == Seq::<u8>::empty());
        assert(x + Seq::<u8>::empty() =~= x);
        assert(spec_cat(hs) == Seq::<u8>::empty());
        assert(Seq::<u8>::empty() + x =~= x);
    } else {
        assert(hs.push(x).drop_first() =~= hs.drop_first().push(x));
        lemma_cat_push(hs.drop_first(), x);
        assert(hs.push(x).len() > 0);
        assert(spec_cat(hs.push(x)) == hs.push(x)[0] + spec_cat(hs.push(x).drop_first()));
        assert(hs.push(x)[0] == hs[0]);
        assert(spec_cat(hs.push(x)) == hs[0] + (spec_cat(hs.drop_first()) + x));
        assert(hs[0] + (spec_cat(hs.drop_first()) + x) =~= (hs[0] + spec_cat(hs.drop_first()))
            + x);
        assert(spec_cat(hs) == hs[0] + spec_cat(hs.drop_first()));
    }
}

/// The body bytes (everything after the marker) of an encoded batch
/// record.
pub open spec fn spec_encode_batch_body(r: OnChainBatchView) -> Seq<u8> {
    spec_u64_to_le_bytes(r.id) + seq![r.status.spec_byte()] + seq![r.query_count]
        + spec_u32_to_le_bytes(r.query_hashes.len() as u32) + spec_cat(r.query_hashes)
        + spec_u32_to_le_bytes(r.submitters.len() as u32) + spec_cat(r.submitters)
        + spec_u64_to_le_bytes(r.created_at as u64) + (match r.finalized_at {
        Some(t) => seq![1u8] + spec_u64_to_le_bytes(t as u64),
        None => seq![0u8],
    }) + (match r.results_hash {
        Some(h) => seq![1u8] + h,
        None => seq![0u8],
    }) + seq![r.bump]
}

/// Append the concatenation of a list of byte strings to `out`.
fn append_cat(out: &mut Vec<u8>, hs: &Vec<Vec<u8>>)
    ensures
        final(out)@ == old(out)@ + spec_cat(hs.deep_view()),
{
    let ghost base = out@;
    let mut i: usize = 0;
    proof {
        assert(hs.deep_view().take(0) =~= Seq::<Seq<u8>>::empty());
        assert(out@ =~= base + spec_cat(hs.deep_view().take(0)));
    }
    while i < hs.len()
        invariant
            i <= hs.len(),
            hs.deep_view().len() == hs.len(),
            out@ == base + spec_cat(hs.deep_view().take(i as int)),
        decreases hs.len() - i,
    {
        let h = &hs[i];
        out.extend_from_slice(h.as_slice());
        proof {
            lemma_cat_push(hs.deep_view().take(i as int), hs.deep_view()[i as int]);
            assert(hs.deep_view().take(i + 1) =~= hs.deep_view().take(i as int).push(
                hs.deep_view()[i as int],
            ));
            assert(hs.deep_view()[i as int] == h.deep_view());
            assert(h.deep_view() =~= h@);
            assert(out@ =~= base + spec_cat(hs.deep_view().take(i + 1)));
        }
        i = i + 1;
    }
    proof {
        assert(hs.deep_view().take(hs.len() as int) =~= hs.deep_view());
    }
}

/// Encode a batch record into its body bytes (everything after the
/// marker). A ledger buffer for the record is any 8-byte marker followed
/// by exactly these bytes.
pub fn encode_batch(rec: &OnChainBatch) -> (out: Vec<u8>)
    requires
        rec@.wf(),
    ensures
        out@ == spec_encode_batch_body(rec@),
{
    let mut out: Vec<u8> = Vec::new();
    let mut piece = u64_to_le_bytes(rec.id);
    out.append(&mut piece);
    out.push(rec.status.to_byte());
    out.push(rec.query_count);
    let mut piece = u32_to_le_bytes(rec.query_hashes.len() as u32);
    out.append(&mut piece);
    append_cat(&mut out, &rec.query_hashes);
    let mut piece = u32_to_le_bytes(rec.submitters.len() as u32);
    out.append(&mut piece);
    append_cat(&mut out, &rec.submitters);
    let mut piece = u64_to_le_bytes(rec.created_at as u64);
    out.append(&mut piece);
    match rec.finalized_at {
        Some(t) => {
            out.push(1);
            let mut piece = u64_to_le_bytes(t as u64);
            out.append(&mut piece);
        },
        None => {
            out.push(0);
        },
    }
    match rec.results_hash {
        Some(ref h) => {
            out.push(1);
            out.extend_from_slice(h.as_slice());
        },
        None => {
            out.push(0);
        },
    }
    out.push(rec.bump);
    proof {
        assert(out@ =~= spec_encode_batch_body(rec@));
    }
    out
}

// ---------------------------------------------------------------------
// Round trip: decoding an encoded record yields the record back and
// consumes the whole buffer.
// ---------------------------------------------------------------------

/// A successful list read of `n` items ends exactly `32 * n` bytes
/// after where it started.
pub proof fn lemma_read_hash_list_end(b: Seq<u8>, o: int, n: nat)
    ensures
        match spec_read_hash_list(b, o, n) {
            Some((v, oe)) => oe == o + 32 * n && v.len() == n,
            None => true,
        },
    decreases n,
{
    if n > 0 {
        match spec_read_bytes(b, o, 32) {
            Some((h, o2)) => {
                lemma_read_hash_list_end(b, o2, (n - 1) as nat);
            },
            None => {},
        }
    }
}

/// Reading `hs.len()` 32-byte items out of a region that holds exactly
/// the concatenation of `hs` yields `hs` itself.
pub proof fn lemma_read_cat(b: Seq<u8>, o: int, hs: Seq<Seq<u8>>)
    requires
        forall|i: int| 0 <= i < hs.len() ==> (#[trigger] hs[i]).len() == 32,
        0 <= o,
        o + 32 * hs.len() <= b.len(),
        b.subrange(o, o + 32 * hs.len()) == spec_cat(hs),
    ensures
        spec_read_hash_list(b, o, hs.len()) == Some((hs, o + 32 * hs.len())),
    decreases hs.len(),
{
    lemma_cat_len32(hs);
    if hs.len() == 0 {
        assert(hs =~= Seq::<Seq<u8>>::empty());
    } else {
        let rest = hs.drop_first();
        lemma_cat_len32(rest);
        assert(spec_cat(hs) == hs[0] + spec_cat(rest));
        assert forall|k: int| 0 <= k < 32 implies b.subrange(o, o + 32)[k] == hs[0][k] by {
            assert(b.subrange(o, o + 32 * hs.len())[k] == spec_cat(hs)[k]);
        }
        assert(b.subrange(o, o + 32) =~= hs[0]);
        assert forall|k: int| 0 <= k < 32 * rest.len() implies b.subrange(
            o + 32,
            o + 32 + 32 * rest.len(),
        )[k] == spec_cat(rest)[k] by {
            assert(b.subrange(o, o + 32 * hs.len())[k + 32] == spec_cat(hs)[k + 32]);
        }
        assert(b.subrange(o + 32, o + 32 + 32 * rest.len()) =~= spec_cat(rest));
        lemma_read_cat(b, o + 32, rest);
        assert(seq![hs[0]] + rest =~= hs);
    }
}

/// Casting an `i64` through `u64` and back is the identity.
proof fn lemma_i64_u64_roundtrip(x: i64)
    ensures
        (x as u64) as i64 == x,
{
    assert((x as u64) as i64 == x) by (bit_vector);
}

/// Decoding any 8-byte marker followed by the encoding of a
/// well-formed record yields that record back, consuming the whole
/// buffer: re-encoding reproduces the buffer's bytes after the marker.
#[verifier::rlimit(100)]
#[verifier::spinoff_prover]
pub proof fn lemma_decode_encoded_batch(marker: Seq<u8>, r: OnChainBatchView)
    requires
        marker.len() == MARKER_LEN,
        r.wf(),
    ensures
        spec_decode_batch_full(marker + spec_encode_batch_body(r)) == Some(
            (r, (marker.len() + spec_encode_batch_body(r).len()) as int),
        ),
{
    lemma_auto_spec_u64_to_from_le_bytes();
    lemma_auto_spec_u32_to_from_le_bytes();
    lemma_cat_len32(r.query_hashes);
    lemma_cat_len32(r.submitters);
    let body = spec_encode_batch_body(r);
    let b = marker + body;
    let hn = r.query_hashes.len() as int;
    let sn = r.submitters.len() as int;
    let q4 = 14 + 32 * hn;
    let q5 = q4 + 4;
    let q6 = q5 + 32 * sn;
    let q7 = q6 + 8;
    let q8 = q7 + (if r.finalized_at is Some {
        9int
    } else {
        1int
    });
    let q9 = q8 + (if r.results_hash is Some {
        33int
    } else {
        1int
    });
    let qe = q9 + 1;
    assert(body.len() == qe);
    assert(b.len() == 8 + qe);

    assert(b.subrange(8, 16) =~= spec_u64_to_le_bytes(r.id));
    assert(spec_read_u64le(b, 8) == Some((r.id, 16int)));
    assert(b[16] == r.status.spec_byte());
    assert(OnChainBatchStatus::spec_of_byte(r.status.spec_byte()) == Some(r.status));
    assert(b[17] == r.query_count);
    assert(b.subrange(18, 22) =~= spec_u32_to_le_bytes(r.query_hashes.len() as u32));
    assert(spec_read_u32le(b, 18) == Some((r.query_hashes.len() as u32, 22int)));
    assert((r.query_hashes.len() as u32) as nat == r.query_hashes.len());
    assert(b.subrange(22, 22 + 32 * hn) =~= spec_cat(r.query_hashes));
    lemma_read_cat(b, 22, r.query_hashes);
    assert(spec_read_hash_list(b, 22, r.query_hashes.len()) == Some(
        (r.query_hashes, 8 + q4),
    ));
    assert(b.subrange(8 + q4, 8 + q5) =~= spec_u32_to_le_bytes(r.submitters.len() as u32));
    assert(spec_read_u32le(b, 8 + q4) == Some((r.submitters.len() as u32, 8 + q5)));
    assert((r.submitters.len() as u32) as nat == r.submitters.len());
    assert(b.subrange(8 + q5, 8 + q6) =~= spec_cat(r.submitters));
    lemma_read_cat(b, 8 + q5, r.submitters);
    assert(spec_read_hash_list(b, 8 + q5, r.submitters.len()) == Some(
        (r.submitters, 8 + q6),
    ));
    assert(b.subrange(8 + q6, 8 + q7) =~= spec_u64_to_le_bytes(r.created_at as u64));
    lemma_i64_u64_roundtrip(r.created_at);
    assert(spec_read_i64le(b, 8 + q6) == Some((r.created_at, 8 + q7)));
    match r.finalized_at {
        Some(t) => {
            assert(b[8 + q7] == 1u8);
            assert(b.subrange(8 + q7 + 1, 8 + q8) =~= spec_u64_to_le_bytes(t as u64));
            lemma_i64_u64_roundtrip(t);
            assert(spec_read_opt_i64(b, 8 + q7) == Some((Some(t), 8 + q8)));
        },
        None => {
            assert(b[8 + q7] == 0u8);
            assert(spec_read_opt_i64(b, 8 + q7) == Some((None::<i64>, 8 + q8)));
        },
    }
    match r.results_hash {
        Some(h) => {
            assert(b[8 + q8] == 1u8);
            assert(b.subrange(8 + q8 + 1, 8 + q9) =~= h);
            assert(spec_read_opt_hash(b, 8 + q8) == Some((Some(h), 8 + q9)));
        },
        None => {
            assert(b[8 + q8] == 0u8);
            assert(spec_read_opt_hash(b, 8 + q8) == Some((None::<Seq<u8>>, 8 + q9)));
        },
    }
    assert(b[8 + q9] == r.bump);
    assert(spec_read_u8(b, 8 + q9) == Some((r.bump, 8 + qe)));
}

// ---------------------------------------------------------------------
// Truncation: decoding any strict prefix of an accepted buffer fails.
// ---------------------------------------------------------------------

/// How a raw-bytes read behaves on a prefix of the buffer.
proof fn lemma_read_bytes_prefix(b: Seq<u8>, l: int, o: int, n: int)
    requires
        0 <= l <= b.len(),
    ensures
        match spec_read_bytes(b, o, n) {
            Some((v, oe)) => {
                &&& oe <= l ==> spec_read_bytes(b.take(l), o, n) == Some((v, oe))
                &&& oe > l ==> spec_read_bytes(b.take(l), o, n) is None
            },
            None => spec_read_bytes(b.take(l), o, n) is None,
        },
{
    if 0 <= o && 0 <= n && o + n <= l {
        assert(b.take(l).subrange(o, o + n) =~= b.subrange(o, o + n));
    }
}

/// How a one-byte read behaves on a prefix of the buffer.
proof fn lemma_read_u8_prefix(b: Seq<u8>, l: int, o: int)
    requires
        0 <= l <= b.len(),
    ensures
        match spec_read_u8(b, o) {
            Some((v, oe)) => {
                &&& oe <= l ==> spec_read_u8(b.take(l), o) == Some((v, oe))
                &&& oe > l ==> spec_read_u8(b.take(l), o) is None
            },
            None => spec_read_u8(b.take(l), o) is None,
        },
{
}

/// How a `u32` read behaves on a prefix of the buffer.
proof fn lemma_read_u32le_prefix(b: Seq<u8>, l: int, o: int)
    requires
        0 <= l <= b.len(),
    ensures
        match spec_read_u32le(b, o) {
            Some((v, oe)) => {
                &&& oe <= l ==> spec_read_u32le(b.take(l), o) == Some((v, oe))
                &&& oe > l ==> spec_read_u32le(b.take(l), o) is None
            },
            None => spec_read_u32le(b.take(l), o) is None,
        },
{
    lemma_read_bytes_prefix(b, l, o, 4);
}

/// How a `u64` read behaves on a prefix of the buffer.
proof fn lemma_read_u64le_prefix(b: Seq<u8>, l: int, o: int)
    requires
        0 <= l <= b.len(),
    ensures
        match spec_read_u64le(b, o) {
            Some((v, oe)) => {
                &&& oe <= l ==> spec_read_u64le(b.take(l), o) == Some((v, oe))
                &&& oe > l ==> spec_read_u64le(b.take(l), o) is None
            },
            None => spec_read_u64le(b.take(l), o) is None,
        },
{
    lemma_read_bytes_prefix(b, l, o, 8);
}

/// How an `i64` read behaves on a prefix of the buffer.
proof fn lemma_read_i64le_prefix(b: Seq<u8>, l: int, o: int)
    requires
        0 <= l <= b.len(),
    ensures
        match spec_read_i64le(b, o) {
            Some((v, oe)) => {
                &&& oe <= l ==> spec_read_i64le(b.take(l), o) == Some((v, oe))
                &&& oe > l ==> spec_read_i64le(b.take(l), o) is None
            },
            None => spec_read_i64le(b.take(l), o) is None,
        },
{
    lemma_read_u64le_prefix(b, l, o);
}

/// How a list read behaves on a prefix of the buffer.
proof fn lemma_read_hash_list_prefix(b: Seq<u8>, l: int, o: int, n: nat)
    requires
        0 <= l <= b.len(),
    ensures
        match spec_read_hash_list(b, o, n) {
            Some((v, oe)) => {
                &&& oe <= l ==> spec_read_hash_list(b.take(l), o, n) == Some((v, oe))
                &&& oe > l && n > 0 ==> spec_read_hash_list(b.take(l), o, n) is None
            },
            None => spec_read_hash_list(b.take(l), o, n) is None,
        },
    decreases n,
{
    if n > 0 {
        lemma_read_bytes_prefix(b, l, o, 32);
        match spec_read_bytes(b, o, 32) {
            Some((h, o2)) => {
                lemma_read_hash_list_prefix(b, l, o2, (n - 1) as nat);
                lemma_read_hash_list_end(b, o2, (n - 1) as nat);
            },
            None => {},
        }
    }
}

/// How an optional-`i64` read behaves on a prefix of the buffer.
proof fn lemma_read_opt_i64_prefix(b: Seq<u8>, l: int, o: int)
    requires
        0 <= l <= b.len(),
    ensures
        match spec_read_opt_i64(b, o) {
            Some((v, oe)) => {
                &&& oe <= l ==> spec_read_opt_i64(b.take(l), o) == Some((v, oe))
                &&& oe > l ==> spec_read_opt_i64(b.take(l), o) is None
            },
            None => spec_read_opt_i64(b.take(l), o) is None,
        },
{
    lemma_read_u8_prefix(b, l, o);
    match spec_read_u8(b, o) {
        Some((flag, o2)) => {
            lemma_read_i64le_prefix(b, l, o2);
        },
        None => {},
    }
}

/// How an optional-hash read behaves on a prefix of the buffer.
proof fn lemma_read_opt_hash_prefix(b: Seq<u8>, l: int, o: int)
    requires
        0 <= l <= b.len(),
    ensures
        match spec_read_opt_hash(b, o) {
            Some((v, oe)) => {
                &&& oe <= l ==> spec_read_opt_hash(b.take(l), o) == Some((v, oe))
                &&& oe > l ==> spec_read_opt_hash(b.take(l), o) is None
            },
            None => spec_read_opt_hash(b.take(l), o) is None,
        },
{
    lemma_read_u8_prefix(b, l, o);
    match spec_read_u8(b, o) {
        Some((flag, o2)) => {
            lemma_read_bytes_prefix(b, l, o2, 32);
        },
        None => {},
    }
}

/// Decoding any strict prefix of a buffer that decodes as a batch
/// record fails: no partial record is ever produced.
#[verifier::rlimit(60)]
pub proof fn lemma_decode_batch_truncated(b: Seq<u8>, r: OnChainBatchView, e: int, l: int)
    requires
        spec_decode_batch_full(b) == Some((r, e)),
        0 <= l < e,
    ensures
        spec_decode_batch_full(b.take(l)) is None,
{
    let (id, o1) = spec_read_u64le(b, 8).unwrap();
    let (status_byte, o2) = spec_read_u8(b, o1).unwrap();
    let (query_count, o3) = spec_read_u8(b, o2).unwrap();
    let (hashes_len, o4) = spec_read_u32le(b, o3).unwrap();
    let (query_hashes, o5) = spec_read_hash_list(b, o4, hashes_len as nat).unwrap();
    let (submitters_len, o6) = spec_read_u32le(b, o5).unwrap();
    let (submitters, o7) = spec_read_hash_list(b, o6, submitters_len as nat).unwrap();
    let (created_at, o8) = spec_read_i64le(b, o7).unwrap();
    let (finalized_at, o9) = spec_read_opt_i64(b, o8).unwrap();
    let (results_hash, o10) = spec_read_opt_hash(b, o9).unwrap();
    let (bump, o11) = spec_read_u8(b, o10).unwrap();
    assert(o11 == e && e <= b.len());
    lemma_read_hash_list_end(b, o4, hashes_len as nat);
    lemma_read_hash_list_end(b, o6, submitters_len as nat);
    lemma_read_u64le_prefix(b, l, 8);
    if o1 <= l {
        lemma_read_u8_prefix(b, l, o1);
        if o2 <= l {
            lemma_read_u8_prefix(b, l, o2);
            if o3 <= l {
                lemma_read_u32le_prefix(b, l, o3);
                if o4 <= l {
                    lemma_read_hash_list_prefix(b, l, o4, hashes_len as nat);
                    if o5 <= l {
                        lemma_read_u32le_prefix(b, l, o5);
                        if o6 <= l {
                            lemma_read_hash_list_prefix(b, l, o6, submitters_len as nat);
                            if o7 <= l {
                                lemma_read_i64le_prefix(b, l, o7);
                                if o8 <= l {
                                    lemma_read_opt_i64_prefix(b, l, o8);
                                    if o9 <= l {
                                        lemma_read_opt_hash_prefix(b, l, o9);
                                        if o10 <= l {
                                            lemma_read_u8_prefix(b, l, o10);
                                        }
                                    }
                                }
                            }
                        }
                    }
                }
            }
        }
    }
}

} // verus!