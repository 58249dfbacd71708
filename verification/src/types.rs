//! Request, configuration and health types of the proxy.

use vstd::prelude::*;

use crate::enums::RpcMethod;

verus! {

/// Maximum number of queries allowed in a single batch.
pub const MAX_BATCH_SIZE: usize = 100;

/// Default k-anonymity parameter (minimum queries per batch).
pub const DEFAULT_K_ANONYMITY: usize = 10;

/// Default server port.
pub const DEFAULT_PORT: u16 = 3000;

/// The target parameter(s) a query carries besides an explicit pubkey:
/// a single text value, a list of keys, or something the proxy does not
/// interpret.
#[derive(Debug, Clone)]
pub enum QueryParams {
    /// A single text parameter (a pubkey or a transaction signature).
    Text(String),
    /// A list of keys, for methods that look up several accounts.
    Keys(Vec<String>),
    /// A parameter shape the proxy does not interpret.
    Other,
}

/// A single query in a batch request.
#[derive(Debug, Clone)]
pub struct Query {
    /// Unique identifier for this query (for result mapping).
    pub id: String,
    /// The RPC method to execute.
    pub method: RpcMethod,
    /// Base58-encoded public key to query (for balance/account methods).
    pub pubkey: Option<String>,
    /// Generic params for methods that need different inputs.
    pub params: Option<QueryParams>,
    /// Optional commitment level (defaults to "confirmed").
    pub commitment: Option<String>,
}

impl Query {
    /// Create a new query with a pubkey parameter.
    pub fn new(id: String, method: RpcMethod, pubkey: String) -> (r: Query)
        ensures
            r.id == id,
            r.method == method,
            r.pubkey == Some(pubkey),
            r.params is None,
            r.commitment is None,
    {
        Query { id, method, pubkey: Some(pubkey), params: None, commitment: None }
    }

    /// Create a new query with generic params.
    pub fn with_params(id: String, method: RpcMethod, params: QueryParams) -> (r: Query)
        ensures
            r.id == id,
            r.method == method,
            r.pubkey is None,
            r.params == Some(params),
            r.commitment is None,
    {
        Query { id, method, pubkey: None, params: Some(params), commitment: None }
    }

    /// Set the commitment level.
    pub fn with_commitment(self, commitment: String) -> (r: Query)
        ensures
            r.id == self.id,
            r.method == self.method,
            r.pubkey == self.pubkey,
            r.params == self.params,
            r.commitment == Some(commitment),
    {
        Query { commitment: Some(commitment), ..self }
    }

    /// The primary target parameter: the explicit pubkey when present,
    /// else a single text param.
    pub fn get_primary_param(&self) -> (r: Option<String>)
        ensures
            match self.pubkey {
                Some(pk) => r matches Some(p) && p@ == pk@,
                None => match self.params {
                    Some(QueryParams::Text(s)) => r matches Some(p) && p@ == s@,
                    _ => r is None,
                },
            },
    {
        if let Some(ref pubkey) = self.pubkey {
            return Some(pubkey.clone());
        }
        if let Some(QueryParams::Text(ref s)) = self.params {
            return Some(s.clone());
        }
        None
    }
}

/// Request to execute a batch of queries.
#[derive(Debug, Clone)]
pub struct BatchRequest {
    /// The queries to execute.
    pub queries: Vec<Query>,
    /// SHA-256 hash of the batch, advisory: the response hash is always
    /// computed server-side.
    pub batch_hash: Option<String>,
    /// On-chain batch id (for ledger-coordinated batches).
    pub batch_id: Option<String>,
}

impl BatchRequest {
    /// Create a new batch request.
    pub fn new(queries: Vec<Query>) -> (r: BatchRequest)
        ensures
            r.queries == queries,
            r.batch_hash is None,
            r.batch_id is None,
    {
        BatchRequest { queries, batch_hash: None, batch_id: None }
    }

    /// Set the batch hash.
    pub fn with_hash(self, hash: String) -> (r: BatchRequest)
        ensures
            r.queries == self.queries,
            r.batch_hash == Some(hash),
            r.batch_id == self.batch_id,
    {
        BatchRequest { batch_hash: Some(hash), ..self }
    }

    /// The number of queries in this batch.
    pub fn len(&self) -> (r: usize)
        ensures
            r == self.queries.len(),
    {
        self.queries.len()
    }

    /// Whether the batch is empty.
    pub fn is_empty(&self) -> (r: bool)
        ensures
            r == (self.queries.len() == 0),
    {
        self.queries.is_empty()
    }
}

/// Proxy server configuration.
#[derive(Debug, Clone)]
pub struct ProxyConfig {
    /// Backing RPC endpoint URL.
    pub rpc_url: String,
    /// Server port.
    pub port: u16,
    /// Minimum batch size for k-anonymity.
    pub k_anonymity: usize,
    /// Maximum batch size.
    pub max_batch_size: usize,
    /// Whether the on-chain batch poller is enabled.
    pub enable_poller: bool,
    /// Poll interval in milliseconds.
    pub poll_interval_ms: Option<u64>,
}

impl ProxyConfig {
    /// Create a new configuration with the given RPC URL.
    pub fn new(rpc_url: String) -> (r: ProxyConfig)
        ensures
            r.rpc_url == rpc_url,
            r.port == DEFAULT_PORT,
            r.k_anonymity == DEFAULT_K_ANONYMITY,
            r.max_batch_size == MAX_BATCH_SIZE,
            r.enable_poller == false,
            r.poll_interval_ms is None,
    {
        ProxyConfig {
            rpc_url,
            port: DEFAULT_PORT,
            k_anonymity: DEFAULT_K_ANONYMITY,
            max_batch_size: MAX_BATCH_SIZE,
            enable_poller: false,
            poll_interval_ms: None,
        }
    }

    /// Set the server port.
    pub fn with_port(self, port: u16) -> (r: ProxyConfig)
        ensures
            r == (ProxyConfig { port, ..self }),
    {
        ProxyConfig { port, ..self }
    }

    /// Set the k-anonymity parameter.
    pub fn with_k_anonymity(self, k: usize) -> (r: ProxyConfig)
        ensures
            r == (ProxyConfig { k_anonymity: k, ..self }),
    {
        ProxyConfig { k_anonymity: k, ..self }
    }

    /// Enable the on-chain batch poller with the given interval.
    pub fn with_poller(self, interval_ms: u64) -> (r: ProxyConfig)
        ensures
            r == (ProxyConfig {
                enable_poller: true,
                poll_interval_ms: Some(interval_ms),
                ..self
            }),
    {
        ProxyConfig { enable_poller: true, poll_interval_ms: Some(interval_ms), ..self }
    }
}

impl Default for ProxyConfig {
    /// The default configuration: an empty RPC URL, default port and
    /// batch parameters, poller disabled.
    fn default() -> (r: ProxyConfig)
        ensures
            r.rpc_url@ == Seq::<char>::empty(),
            r.port == DEFAULT_PORT,
            r.k_anonymity == DEFAULT_K_ANONYMITY,
            r.max_batch_size == MAX_BATCH_SIZE,
            r.enable_poller == false,
            r.poll_interval_ms is None,
    {
        ProxyConfig {
            rpc_url: String::new(),
            port: DEFAULT_PORT,
            k_anonymity: DEFAULT_K_ANONYMITY,
            max_batch_size: MAX_BATCH_SIZE,
            enable_poller: false,
            poll_interval_ms: None,
        }
    }
}

/// Health check response.
#[derive(Debug, Clone)]
pub struct HealthResponse {
    /// Service status: "healthy" or "degraded".
    pub status: String,
    /// Service version.
    pub version: String,
    /// Whether the backing RPC connection is healthy.
    pub rpc_healthy: bool,
}

impl HealthResponse {
    /// Status string for a healthy service.
    pub const STATUS_HEALTHY: &'static str = "healthy";

    /// Status string for a degraded service.
    pub const STATUS_DEGRADED: &'static str = "degraded";

    /// Create a health response: the service is degraded exactly when
    /// the backing RPC health probe fails.
    pub fn new(rpc_healthy: bool) -> (r: HealthResponse)
        ensures
            r.rpc_healthy == rpc_healthy,
            rpc_healthy ==> r.status@ == "healthy"@,
            !rpc_healthy ==> r.status@ == "degraded"@,
            r.version@ == "0.1.0"@,
    {
        HealthResponse {
            status: if rpc_healthy {
                String::from_str("healthy")
            } else {
                String::from_str("degraded")
            },
            version: String::from_str("0.1.0"),
            rpc_healthy,
        }
    }
}

} // verus!
