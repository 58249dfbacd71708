//! Error taxonomy of the proxy.

use vstd::prelude::*;

use crate::text::{spec_decimal, u64_to_decimal, usize_to_decimal};
use crate::types::MAX_BATCH_SIZE;

verus! {

/// Errors that can occur during proxy operations.
///
/// An error reported by the backing RPC client is carried as its
/// message text.
#[derive(Debug)]
pub enum ProxyError {
    /// Error communicating with the backing RPC endpoint.
    SolanaRpc(String),
    /// Invalid query parameters.
    InvalidQuery(String),
    /// Invalid public key format.
    InvalidPubkey(String),
    /// Batch size exceeded the executor's ceiling.
    BatchTooLarge { actual: usize, max: usize },
    /// The batch carried no queries at all.
    EmptyBatch,
    /// Internal server error.
    Internal(String),
    /// Query execution timed out.
    Timeout(u64),
}

/// Result type for proxy operations.
pub type ProxyResult<T> = Result<T, ProxyError>;

impl ProxyError {
    /// The human-readable message for this error.
    pub open spec fn spec_message(self) -> Seq<char> {
        match self {
            ProxyError::SolanaRpc(s) => "Solana RPC error: "@ + s@,
            ProxyError::InvalidQuery(s) => "Invalid query: "@ + s@,
            ProxyError::InvalidPubkey(s) => "Invalid pubkey: "@ + s@,
            ProxyError::BatchTooLarge { actual, max } => "Batch size "@ + spec_decimal(
                actual as nat,
            ) + " exceeds maximum of "@ + spec_decimal(max as nat),
            ProxyError::EmptyBatch => "Batch cannot be empty"@,
            ProxyError::Internal(s) => "Internal error: "@ + s@,
            ProxyError::Timeout(ms) => "Query execution timed out after "@ + spec_decimal(
                ms as nat,
            ) + "ms"@,
        }
    }

    /// Render the human-readable message for this error.
    pub fn message(&self) -> (r: String)
        ensures
            r@ == self.spec_message(),
    {
        match self {
            ProxyError::SolanaRpc(s) => String::from_str("Solana RPC error: ").concat(s.as_str()),
            ProxyError::InvalidQuery(s) => String::from_str("Invalid query: ").concat(s.as_str()),
            ProxyError::InvalidPubkey(s) => String::from_str("Invalid pubkey: ").concat(
                s.as_str(),
            ),
            ProxyError::BatchTooLarge { actual, max } => {
                let mut out = String::from_str("Batch size ");
                let a = usize_to_decimal(*actual);
                out.append(a.as_str());
                out.append(" exceeds maximum of ");
                let m = usize_to_decimal(*max);
                out.append(m.as_str());
                out
            },
            ProxyError::EmptyBatch => String::from_str("Batch cannot be empty"),
            ProxyError::Internal(s) => String::from_str("Internal error: ").concat(s.as_str()),
            ProxyError::Timeout(ms) => {
                let mut out = String::from_str("Query execution timed out after ");
                let v = u64_to_decimal(*ms);
                out.append(v.as_str());
                out.append("ms");
                out
            },
        }
    }

    /// Build a `BatchTooLarge` error against the executor's fixed
    /// ceiling.
    pub fn batch_too_large(actual: usize) -> (r: Self)
        ensures
            r == (ProxyError::BatchTooLarge { actual, max: MAX_BATCH_SIZE }),
    {
        ProxyError::BatchTooLarge { actual, max: MAX_BATCH_SIZE }
    }
}

} // verus!
