//! Enumerations shared across the proxy: the RPC method set, commitment
//! levels, and the proxy-side batch lifecycle status.

use vstd::prelude::*;

verus! {

/// Supported RPC methods for privacy batching.
#[derive(Debug, Clone, Copy, PartialEq, Eq, Structural, Hash)]
pub enum RpcMethod {
    /// Get account balance in lamports.
    GetBalance,
    /// Get account information.
    GetAccountInfo,
    /// Get transaction by signature.
    GetTransaction,
    /// Get SPL token account balance.
    GetTokenAccountBalance,
    /// Get current block height.
    GetBlockHeight,
    /// Get multiple accounts in one query.
    GetMultipleAccounts,
}

impl RpcMethod {
    /// The wire name of a method, as a spec-level character sequence.
    pub open spec fn spec_name(self) -> Seq<char> {
        match self {
            RpcMethod::GetBalance => "getBalance"@,
            RpcMethod::GetAccountInfo => "getAccountInfo"@,
            RpcMethod::GetTransaction => "getTransaction"@,
            RpcMethod::GetTokenAccountBalance => "getTokenAccountBalance"@,
            RpcMethod::GetBlockHeight => "getBlockHeight"@,
            RpcMethod::GetMultipleAccounts => "getMultipleAccounts"@,
        }
    }

    /// Convert a method to its RPC method name string.
    pub fn as_str(&self) -> (r: &'static str)
        ensures
            r@ == self.spec_name(),
    {
        match self {
            RpcMethod::GetBalance => "getBalance",
            RpcMethod::GetAccountInfo => "getAccountInfo",
            RpcMethod::GetTransaction => "getTransaction",
            RpcMethod::GetTokenAccountBalance => "getTokenAccountBalance",
            RpcMethod::GetBlockHeight => "getBlockHeight",
            RpcMethod::GetMultipleAccounts => "getMultipleAccounts",
        }
    }

    /// All supported RPC methods, in a fixed order.
    pub fn all() -> (r: Vec<RpcMethod>)
        ensures
            r@ == seq![
                RpcMethod::GetBalance,
                RpcMethod::GetAccountInfo,
                RpcMethod::GetTransaction,
                RpcMethod::GetTokenAccountBalance,
                RpcMethod::GetBlockHeight,
                RpcMethod::GetMultipleAccounts,
            ],
    {
        let mut v: Vec<RpcMethod> = Vec::new();
        v.push(RpcMethod::GetBalance);
        v.push(RpcMethod::GetAccountInfo);
        v.push(RpcMethod::GetTransaction);
        v.push(RpcMethod::GetTokenAccountBalance);
        v.push(RpcMethod::GetBlockHeight);
        v.push(RpcMethod::GetMultipleAccounts);
        assert(v@ =~= seq![
            RpcMethod::GetBalance,
            RpcMethod::GetAccountInfo,
            RpcMethod::GetTransaction,
            RpcMethod::GetTokenAccountBalance,
            RpcMethod::GetBlockHeight,
            RpcMethod::GetMultipleAccounts,
        ]);
        v
    }

    /// The method named by `s`, if `s` is a valid RPC method name.
    pub fn from_str(s: &str) -> (r: Option<RpcMethod>)
        ensures
            match r {
                Some(m) => s@ == m.spec_name(),
                None => forall|m: RpcMethod| s@ != m.spec_name(),
            },
    {
        let r = if crate::text::str_eq(s, "getBalance") {
            Some(RpcMethod::GetBalance)
        } else if crate::text::str_eq(s, "getAccountInfo") {
            Some(RpcMethod::GetAccountInfo)
        } else if crate::text::str_eq(s, "getTransaction") {
            Some(RpcMethod::GetTransaction)
        } else if crate::text::str_eq(s, "getTokenAccountBalance") {
            Some(RpcMethod::GetTokenAccountBalance)
        } else if crate::text::str_eq(s, "getBlockHeight") {
            Some(RpcMethod::GetBlockHeight)
        } else if crate::text::str_eq(s, "getMultipleAccounts") {
            Some(RpcMethod::GetMultipleAccounts)
        } else {
            None
        };
        proof {
            if r is None {
                assert forall|m: RpcMethod| s@ != m.spec_name() by {}
            }
        }
        r
    }
}

/// Ledger commitment levels for a query.
#[derive(Debug, Clone, Copy, PartialEq, Eq, Structural)]
pub enum CommitmentLevel {
    /// The most recent block that has reached one confirmation by a
    /// supermajority.
    Confirmed,
    /// The most recent block known to the node.
    Processed,
    /// The most recent block finalized by a supermajority.
    Finalized,
}

/// Default commitment level for queries.
pub const DEFAULT_COMMITMENT: CommitmentLevel = CommitmentLevel::Confirmed;

impl CommitmentLevel {
    /// The wire name of a commitment level, as a spec-level sequence.
    pub open spec fn spec_name(self) -> Seq<char> {
        match self {
            CommitmentLevel::Processed => "processed"@,
            CommitmentLevel::Confirmed => "confirmed"@,
            CommitmentLevel::Finalized => "finalized"@,
        }
    }

    /// Convert to the string representation.
    pub fn as_str(&self) -> (r: &'static str)
        ensures
            r@ == self.spec_name(),
    {
        match self {
            CommitmentLevel::Processed => "processed",
            CommitmentLevel::Confirmed => "confirmed",
            CommitmentLevel::Finalized => "finalized",
        }
    }

    /// The commitment level named by `s`, if any.
    pub fn from_str(s: &str) -> (r: Option<CommitmentLevel>)
        ensures
            match r {
                Some(c) => s@ == c.spec_name(),
                None => forall|c: CommitmentLevel| s@ != c.spec_name(),
            },
    {
        let r = if crate::text::str_eq(s, "processed") {
            Some(CommitmentLevel::Processed)
        } else if crate::text::str_eq(s, "confirmed") {
            Some(CommitmentLevel::Confirmed)
        } else if crate::text::str_eq(s, "finalized") {
            Some(CommitmentLevel::Finalized)
        } else {
            None
        };
        proof {
            if r is None {
                assert forall|c: CommitmentLevel| s@ != c.spec_name() by {}
            }
        }
        r
    }
}

impl Default for CommitmentLevel {
    /// The default commitment level is `Confirmed`.
    fn default() -> (r: Self)
        ensures
            r == CommitmentLevel::Confirmed,
    {
        CommitmentLevel::Confirmed
    }
}

/// Status of a batch execution on the proxy side.
#[derive(Debug, Clone, Copy, PartialEq, Eq, Structural)]
pub enum BatchStatus {
    /// Batch is waiting for more queries.
    Pending,
    /// Batch is currently being executed.
    Executing,
    /// Batch execution completed successfully.
    Completed,
    /// Batch execution failed.
    Failed,
    /// Batch was cancelled.
    Cancelled,
}

impl BatchStatus {
    /// Whether this status indicates completion (success or failure).
    pub fn is_terminal(&self) -> (r: bool)
        ensures
            r == (self is Completed || self is Failed || self is Cancelled),
    {
        matches!(self, BatchStatus::Completed | BatchStatus::Failed | BatchStatus::Cancelled)
    }

    /// Whether the batch is currently being processed.
    pub fn is_active(&self) -> (r: bool)
        ensures
            r == (self is Pending || self is Executing),
    {
        matches!(self, BatchStatus::Pending | BatchStatus::Executing)
    }

    /// The lower-case display name of a status, as a spec-level sequence.
    pub open spec fn spec_name(self) -> Seq<char> {
        match self {
            BatchStatus::Pending => "pending"@,
            BatchStatus::Executing => "executing"@,
            BatchStatus::Completed => "completed"@,
            BatchStatus::Failed => "failed"@,
            BatchStatus::Cancelled => "cancelled"@,
        }
    }

    /// Convert to the lower-case string representation.
    pub fn as_str(&self) -> (r: &'static str)
        ensures
            r@ == self.spec_name(),
    {
        match self {
            BatchStatus::Pending => "pending",
            BatchStatus::Executing => "executing",
            BatchStatus::Completed => "completed",
            BatchStatus::Failed => "failed",
            BatchStatus::Cancelled => "cancelled",
        }
    }
}

} // verus!
