//! Cross-collection identity reconciliation for a pair of entangled token
//! collections: metadata ingestion and normalization, deterministic pairing
//! ("entanglements"), and idempotent on-chain patch planning.

use vstd::prelude::*;

pub mod chain;
pub mod ingest;
pub mod matcher;
pub mod normalize;
pub mod reconcile;
pub mod records;

verus! {

/// Address of the default ledger RPC endpoint.
pub fn default_rpc_url() -> (r: String)
    ensures
        r@ == "https://api.mainnet-beta.solana.com"@,
{
    "https://api.mainnet-beta.solana.com".to_owned()
}

} // verus!
