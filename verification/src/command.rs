//! Command surface: run the indexing pipeline, or regenerate the contract
//! binding types from the ABI description file and exit. Executing either
//! command is process bootstrap work and lives outside the library.

use vstd::prelude::*;

verus! {

/// The two commands the indexer offers.
#[derive(Clone, Copy, Debug, PartialEq, Eq, Structural)]
pub enum EthLog {
    /// Start the indexing.
    Run,
    /// Generate types for the pool contract.
    Generate,
}

} // verus!
