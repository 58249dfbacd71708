//! Batch execution core: admission control, fan-in of per-query
//! outcomes, and the aggregated response with its deterministic result
//! digest.
//!
//! Dispatching the queries against the backing RPC endpoint is I/O and
//! lives outside the library; the functions here decide what may be
//! dispatched and derive the response from the ordered sequence of
//! per-query results.

use sha2::Digest;
use vstd::prelude::*;

use crate::error::ProxyError;
use crate::enums::CommitmentLevel;
use crate::types::{BatchRequest, Query, QueryParams, MAX_BATCH_SIZE};
use vstd::string::StringSliceAdditionalSpecFns;
use vstd::utf8::encode_utf8;

verus! {

/// Mathematical model of a per-query result.
pub struct QueryResultView {
    pub id: Seq<char>,
    pub success: bool,
    pub data: Option<Seq<char>>,
    pub error: Option<Seq<char>>,
}

impl QueryResultView {
    /// A result is exactly one of success-with-data or
    /// failure-with-message — never both, never neither.
    pub open spec fn wf(self) -> bool {
        &&& self.success ==> self.data is Some && self.error is None
        &&& !self.success ==> self.data is None && self.error is Some
    }
}

/// Result of a single query execution. The result data is carried as
/// its serialized JSON text.
#[derive(Debug, Clone)]
pub struct QueryResult {
    /// The query id this result corresponds to.
    pub id: String,
    /// Whether the query succeeded.
    pub success: bool,
    /// The result data (if successful), as JSON text.
    pub data: Option<String>,
    /// Error message (if failed).
    pub error: Option<String>,
}

impl View for QueryResult {
    type V = QueryResultView;

    open spec fn view(&self) -> QueryResultView {
        QueryResultView {
            id: self.id@,
            success: self.success,
            data: match self.data {
                Some(ref d) => Some(d@),
                None => None,
            },
            error: match self.error {
                Some(ref e) => Some(e@),
                None => None,
            },
        }
    }
}

impl QueryResult {
    /// Create a successful result.
    pub fn success(id: String, data: String) -> (r: QueryResult)
        ensures
            r@.id == id@,
            r@.success,
            r@.data == Some(data@),
            r@.error is None,
            r@.wf(),
    {
        QueryResult { id, success: true, data: Some(data), error: None }
    }

    /// Create a failed result.
    pub fn failure(id: String, error: String) -> (r: QueryResult)
        ensures
            r@.id == id@,
            !r@.success,
            r@.data is None,
            r@.error == Some(error@),
            r@.wf(),
    {
        QueryResult { id, success: false, data: None, error: Some(error) }
    }
}

/// The views of a sequence of results.
pub open spec fn views_of(rs: Seq<QueryResult>) -> Seq<QueryResultView> {
    rs.map_values(|q: QueryResult| q@)
}

// ---------------------------------------------------------------------
// Admission control.
// ---------------------------------------------------------------------

/// Admission control, applied before any query is dispatched: an empty
/// batch is rejected, and so is one larger than the executor's fixed
/// ceiling — independent of the ledger's own batch limits.
pub fn validate_batch_request(request: &BatchRequest) -> (r: Result<(), ProxyError>)
    ensures
        r is Ok <==> 1 <= request.queries.len() <= MAX_BATCH_SIZE,
        request.queries.len() == 0 ==> r == Result::<(), ProxyError>::Err(ProxyError::EmptyBatch),
        request.queries.len() > MAX_BATCH_SIZE ==> r == Result::<(), ProxyError>::Err(
            ProxyError::BatchTooLarge { actual: request.queries.len(), max: MAX_BATCH_SIZE },
        ),
{
    if request.is_empty() {
        Err(ProxyError::EmptyBatch)
    } else if request.len() > MAX_BATCH_SIZE {
        Err(ProxyError::batch_too_large(request.len()))
    } else {
        Ok(())
    }
}

/// Extract the list of keys a multi-account query names: a list
/// parameter is taken as is, a single text parameter stands for a
/// one-element list, anything else is rejected with the message the
/// caller reports.
pub fn extract_pubkeys(query: &Query) -> (r: Result<Vec<String>, String>)
    ensures
        match query.params {
            None => r matches Err(m) && m@ == "Missing pubkeys parameter"@,
            Some(QueryParams::Other) => r matches Err(m) && m@
                == "Invalid params format, expected array of strings"@,
            Some(QueryParams::Text(s)) => r matches Ok(ks) && ks@.len() == 1 && ks@[0]@ == s@,
            Some(QueryParams::Keys(ks)) => {
                if ks@.len() == 0 {
                    r matches Err(m) && m@ == "Empty pubkeys array"@
                } else {
                    r matches Ok(out) && out@.len() == ks@.len() && (forall|i: int|
                        0 <= i < ks@.len() ==> out@[i]@ == #[trigger] ks@[i]@)
                }
            },
        },
{
    match &query.params {
        None => Err(String::from_str("Missing pubkeys parameter")),
        Some(QueryParams::Other) => Err(
            String::from_str("Invalid params format, expected array of strings"),
        ),
        Some(QueryParams::Text(s)) => {
            let mut out: Vec<String> = Vec::new();
            out.push(s.clone());
            Ok(out)
        },
        Some(QueryParams::Keys(ks)) => {
            if ks.len() == 0 {
                Err(String::from_str("Empty pubkeys array"))
            } else {
                let mut out: Vec<String> = Vec::new();
                let mut i: usize = 0;
                while i < ks.len()
                    invariant
                        i <= ks.len(),
                        out@.len() == i,
                        forall|j: int| 0 <= j < i ==> out@[j]@ == #[trigger] ks@[j]@,
                    decreases ks.len() - i,
                {
                    out.push(ks[i].clone());
                    i = i + 1;
                }
                Ok(out)
            }
        },
    }
}

/// The commitment level named by `s`, if any.
pub open spec fn spec_commitment_of_name(s: Seq<char>) -> Option<CommitmentLevel> {
    if s == CommitmentLevel::Processed.spec_name() {
        Some(CommitmentLevel::Processed)
    } else if s == CommitmentLevel::Confirmed.spec_name() {
        Some(CommitmentLevel::Confirmed)
    } else if s == CommitmentLevel::Finalized.spec_name() {
        Some(CommitmentLevel::Finalized)
    } else {
        None
    }
}

/// The commitment level a query is executed under: its own commitment
/// when it names a valid level, else the default, "confirmed".
pub fn effective_commitment(query: &Query) -> (r: CommitmentLevel)
    ensures
        r == (match query.commitment {
            Some(c) => match spec_commitment_of_name(c@) {
                Some(l) => l,
                None => CommitmentLevel::Confirmed,
            },
            None => CommitmentLevel::Confirmed,
        }),
{
    proof {
        reveal_strlit("processed");
        reveal_strlit("confirmed");
        reveal_strlit("finalized");
        assert(CommitmentLevel::Processed.spec_name()[0] == 'p');
        assert(CommitmentLevel::Confirmed.spec_name()[0] == 'c');
        assert(CommitmentLevel::Finalized.spec_name()[0] == 'f');
        assert(CommitmentLevel::Processed.spec_name() != CommitmentLevel::Confirmed.spec_name());
        assert(CommitmentLevel::Processed.spec_name() != CommitmentLevel::Finalized.spec_name());
        assert(CommitmentLevel::Confirmed.spec_name() != CommitmentLevel::Finalized.spec_name());
    }
    match &query.commitment {
        Some(c) => {
            match CommitmentLevel::from_str(c.as_str()) {
                Some(l) => l,
                None => CommitmentLevel::Confirmed,
            }
        },
        None => CommitmentLevel::Confirmed,
    }
}

// ---------------------------------------------------------------------
// Fan-in.
// ---------------------------------------------------------------------

/// The view of one work-unit outcome.
pub open spec fn outcome_view(o: Result<QueryResult, String>) -> Result<QueryResultView, Seq<char>> {
    match o {
        Ok(q) => Ok(q@),
        Err(m) => Err(m@),
    }
}

/// What the fan-in turns one work-unit outcome into: the query's own
/// result, or a failure result under the sentinel id when the work unit
/// itself was lost.
pub open spec fn spec_joined_result(outcome: Result<QueryResultView, Seq<char>>) -> QueryResultView {
    match outcome {
        Ok(v) => v,
        Err(msg) => QueryResultView {
            id: "unknown"@,
            success: false,
            data: None,
            error: Some("Task execution failed: "@ + msg),
        },
    }
}

/// Fan-in of the dispatched work units, in input order: a work unit
/// that produced a result contributes that result; one that failed
/// catastrophically (its error text is handed in) is absorbed as a
/// failure result with a sentinel id — it never escalates to a
/// batch-level error.
pub fn collect_results(outcomes: Vec<Result<QueryResult, String>>) -> (r: Vec<QueryResult>)
    ensures
        r.len() == outcomes.len(),
        forall|i: int| 0 <= i < outcomes.len() ==> r[i]@ == spec_joined_result(
            outcome_view(#[trigger] outcomes[i]),
        ),
{
    let mut r: Vec<QueryResult> = Vec::new();
    let mut i: usize = 0;
    while i < outcomes.len()
        invariant
            i <= outcomes.len(),
            r.len() == i,
            forall|j: int| 0 <= j < i ==> r[j]@ == spec_joined_result(
                outcome_view(#[trigger] outcomes[j]),
            ),
        decreases outcomes.len() - i,
    {
        match &outcomes[i] {
            Ok(q) => {
                let id = q.id.clone();
                let data = match &q.data {
                    Some(d) => Some(d.clone()),
                    None => None,
                };
                let error = match &q.error {
                    Some(e) => Some(e.clone()),
                    None => None,
                };
                let copy = QueryResult { id, success: q.success, data, error };
                proof {
                    assert(copy@ == outcomes[i as int].unwrap()@);
                }
                r.push(copy);
            },
            Err(msg) => {
                let text = String::from_str("Task execution failed: ").concat(msg.as_str());
                r.push(QueryResult::failure(String::from_str("unknown"), text));
            },
        }
        i = i + 1;
    }
    r
}

// ---------------------------------------------------------------------
// Deterministic result digest.
// ---------------------------------------------------------------------

/// The SHA-256 digest of a byte sequence. Its value is fixed by the
/// trusted wrapper below.
pub uninterp spec fn sha256_of(input: Seq<u8>) -> Seq<u8>;

/// Relies on sha2's `Sha256` (through `Digest::digest`): the digest is
/// 32 bytes and a function of the input bytes alone.
#[verifier::external_body]
fn sha256(input: &Vec<u8>) -> (r: Vec<u8>)
    ensures
        r@ == sha256_of(input@),
        r@.len() == 32,
{
    sha2::Sha256::digest(input.as_slice()).as_slice().to_vec()
}

/// The lowercase hexadecimal digit for `d`.
pub open spec fn spec_hex_digit(d: u8) -> char
    recommends
        d < 16,
{
    if d == 0 {
        '0'
    } else if d == 1 {
        '1'
    } else if d == 2 {
        '2'
    } else if d == 3 {
        '3'
    } else if d == 4 {
        '4'
    } else if d == 5 {
        '5'
    } else if d == 6 {
        '6'
    } else if d == 7 {
        '7'
    } else if d == 8 {
        '8'
    } else if d == 9 {
        '9'
    } else if d == 10 {
        'a'
    } else if d == 11 {
        'b'
    } else if d == 12 {
        'c'
    } else if d == 13 {
        'd'
    } else if d == 14 {
        'e'
    } else {
        'f'
    }
}

/// Lowercase hexadecimal rendering of a byte sequence: two digits per
/// byte, high nibble first.
pub open spec fn spec_hex(bytes: Seq<u8>) -> Seq<char>
    decreases bytes.len(),
{
    if bytes.len() == 0 {
        Seq::empty()
    } else {
        seq![
            spec_hex_digit(bytes[0] / 16),
            spec_hex_digit(bytes[0] % 16),
        ] + spec_hex(bytes.drop_first())
    }
}

/// Relies on hex::encode: two lowercase hexadecimal digits per byte,
/// high nibble first, in input order.
#[verifier::external_body]
fn hex_encode(bytes: &Vec<u8>) -> (r: String)
    ensures
        r@ == spec_hex(bytes@),
{
    hex::encode(bytes.as_slice())
}

/// Hex rendering is two characters per byte.
proof fn lemma_hex_len(bytes: Seq<u8>)
    ensures
        spec_hex(bytes).len() == 2 * bytes.len(),
    decreases bytes.len(),
{
    if bytes.len() > 0 {
        lemma_hex_len(bytes.drop_first());
    }
}

/// The bytes one result contributes to the digest: the UTF-8 bytes of
/// its id, one byte for the success flag ('1' or '0'), and the UTF-8
/// bytes of its data text when present.
pub open spec fn spec_result_bytes(r: QueryResultView) -> Seq<u8> {
    encode_utf8(r.id) + seq![
        if r.success {
            49u8
        } else {
            48u8
        },
    ] + (match r.data {
        Some(d) => encode_utf8(d),
        None => Seq::empty(),
    })
}

/// The digest preimage of an ordered result sequence: the
/// concatenation of each result's bytes, in order. Order is hashed
/// material: permuting the sequence changes the preimage.
pub open spec fn spec_batch_preimage(rs: Seq<QueryResultView>) -> Seq<u8>
    decreases rs.len(),
{
    if rs.len() == 0 {
        Seq::empty()
    } else {
        spec_result_bytes(rs[0]) + spec_batch_preimage(rs.drop_first())
    }
}

/// The deterministic batch hash of an ordered result sequence: the
/// lowercase hex rendering of the SHA-256 digest of its preimage.
pub open spec fn spec_batch_hash(rs: Seq<QueryResultView>) -> Seq<char> {
    spec_hex(sha256_of(spec_batch_preimage(rs)))
}

/// The number of successful results in a sequence.
pub open spec fn spec_succeeded_count(rs: Seq<QueryResultView>) -> nat
    decreases rs.len(),
{
    if rs.len() == 0 {
        0
    } else {
        (if rs[0].success {
            1nat
        } else {
            0nat
        }) + spec_succeeded_count(rs.drop_first())
    }
}

/// The preimage of a sequence extended by one result.
pub proof fn lemma_preimage_push(rs: Seq<QueryResultView>, x: QueryResultView)
    ensures
        spec_batch_preimage(rs.push(x)) == spec_batch_preimage(rs) + spec_result_bytes(x),
    decreases rs.len(),
{
    if rs.len() == 0 {
        assert(rs.push(x).drop_first() =~= Seq::<QueryResultView>::empty());
        assert(spec_batch_preimage(rs.push(x)) == spec_result_bytes(x) + spec_batch_preimage(
            Seq::<QueryResultView>::empty(),
        ));
        assert(spec_result_bytes(x) + Seq::<u8>::empty() =~= spec_result_bytes(x));
        assert(Seq::<u8>::empty() + spec_result_bytes(x) =~= spec_result_bytes(x));
    } else {
        assert(rs.push(x).drop_first() =~= rs.drop_first().push(x));
        lemma_preimage_push(rs.drop_first(), x);
        assert(rs.push(x)[0] == rs[0]);
        assert(spec_batch_preimage(rs.push(x)) == spec_result_bytes(rs[0]) + (spec_batch_preimage(
            rs.drop_first(),
        ) + spec_result_bytes(x)));
        assert(spec_result_bytes(rs[0]) + (spec_batch_preimage(rs.drop_first())
            + spec_result_bytes(x)) =~= (spec_result_bytes(rs[0]) + spec_batch_preimage(
            rs.drop_first(),
        )) + spec_result_bytes(x));
    }
}

/// The success count of a sequence extended by one result.
pub proof fn lemma_succeeded_count_push(rs: Seq<QueryResultView>, x: QueryResultView)
    ensures
        spec_succeeded_count(rs.push(x)) == spec_succeeded_count(rs) + (if x.success {
            1nat
        } else {
            0nat
        }),
    decreases rs.len(),
{
    if rs.len() == 0 {
        assert(rs.push(x).drop_first() =~= Seq::<QueryResultView>::empty());
        assert(rs.push(x)[0] == x);
        assert(spec_succeeded_count(Seq::<QueryResultView>::empty()) == 0);
    } else {
        assert(rs.push(x).drop_first() =~= rs.drop_first().push(x));
        lemma_succeeded_count_push(rs.drop_first(), x);
        assert(rs.push(x)[0] == rs[0]);
        assert(spec_succeeded_count(rs.push(x)) == (if rs[0].success {
            1nat
        } else {
            0nat
        }) + spec_succeeded_count(rs.drop_first().push(x)));
    }
}

/// The success count never exceeds the sequence length.
pub proof fn lemma_succeeded_count_le_len(rs: Seq<QueryResultView>)
    ensures
        spec_succeeded_count(rs) <= rs.len(),
    decreases rs.len(),
{
    if rs.len() > 0 {
        lemma_succeeded_count_le_len(rs.drop_first());
    }
}

/// Response from batch execution. Every field is derived from the
/// ordered result sequence and the elapsed-time measurement.
#[derive(Debug, Clone)]
pub struct BatchResponse {
    /// Whether the batch execution succeeded overall.
    pub success: bool,
    /// Individual query results, in request order.
    pub results: Vec<QueryResult>,
    /// Total execution time in milliseconds.
    pub execution_time_ms: u64,
    /// Number of queries that succeeded.
    pub succeeded_count: usize,
    /// Number of queries that failed.
    pub failed_count: usize,
    /// Deterministic hash over the ordered results.
    pub batch_hash: String,
}

impl BatchResponse {
    /// Derive a batch response from the ordered results: the counts
    /// partition the results by their success flag, batch-level success
    /// is exactly "no failures", and the batch hash is the
    /// deterministic digest of the ordered sequence.
    pub fn from_results(results: Vec<QueryResult>, execution_time_ms: u64) -> (r: BatchResponse)
        ensures
            r.results == results,
            r.execution_time_ms == execution_time_ms,
            r.succeeded_count == spec_succeeded_count(views_of(results@)),
            r.failed_count == results@.len() - spec_succeeded_count(views_of(results@)),
            r.success == (r.failed_count == 0),
            r.batch_hash@ == spec_batch_hash(views_of(results@)),
            r.batch_hash@.len() == 64,
    {
        let ghost rsv = views_of(results@);
        proof {
            lemma_succeeded_count_le_len(rsv);
        }
        let mut preimage: Vec<u8> = Vec::new();
        let mut succeeded: usize = 0;
        let mut i: usize = 0;
        proof {
            assert(rsv.take(0) =~= Seq::<QueryResultView>::empty());
            assert(preimage@ =~= spec_batch_preimage(rsv.take(0)));
        }
        while i < results.len()
            invariant
                i <= results.len(),
                rsv == views_of(results@),
                rsv.len() == results.len(),
                preimage@ == spec_batch_preimage(rsv.take(i as int)),
                succeeded == spec_succeeded_count(rsv.take(i as int)),
                succeeded <= i,
            decreases results.len() - i,
        {
            let q = &results[i];
            proof {
                assert(rsv[i as int] == q@);
                lemma_preimage_push(rsv.take(i as int), rsv[i as int]);
                lemma_succeeded_count_push(rsv.take(i as int), rsv[i as int]);
                assert(rsv.take(i + 1) =~= rsv.take(i as int).push(rsv[i as int]));
            }
            let ghost pre_before = preimage@;
            preimage.extend_from_slice(q.id.as_str().as_bytes());
            if q.success {
                preimage.push(49);
                succeeded = succeeded + 1;
            } else {
                preimage.push(48);
            }
            match &q.data {
                Some(d) => {
                    preimage.extend_from_slice(d.as_str().as_bytes());
                    proof {
                        assert(preimage@ =~= pre_before + spec_result_bytes(rsv[i as int]));
                    }
                },
                None => {
                    proof {
                        assert(preimage@ =~= pre_before + spec_result_bytes(rsv[i as int]));
                    }
                },
            }
            i = i + 1;
        }
        proof {
            assert(rsv.take(results.len() as int) =~= rsv);
        }
        let digest = sha256(&preimage);
        let batch_hash = hex_encode(&digest);
        proof {
            lemma_hex_len(digest@);
        }
        let failed_count = results.len() - succeeded;
        BatchResponse {
            success: failed_count == 0,
            results,
            execution_time_ms,
            succeeded_count: succeeded,
            failed_count,
            batch_hash,
        }
    }
}

/// Two hash computations over the same ordered result sequence yield
/// the same batch hash: the digest is a function of the ordered
/// sequence alone.
pub proof fn lemma_batch_hash_deterministic(rs1: Seq<QueryResultView>, rs2: Seq<QueryResultView>)
    requires
        rs1 == rs2,
    ensures
        spec_batch_hash(rs1) == spec_batch_hash(rs2),
{
}

} // verus!
