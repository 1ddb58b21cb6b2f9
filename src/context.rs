use vstd::prelude::*;
use crate::hash::H256;

verus! {

/// What the validation of one block derives once and reads throughout.
#[derive(Clone, Copy, Debug)]
pub struct BlockContext {
    pub number: u64,
    /// The highest block number whose deposits and withdrawals are final.
    pub finalized_number: u64,
    pub timestamp: u64,
    pub rollup_type_hash: H256,
    pub block_hash: H256,
    pub prev_account_root: H256,
}

/// The rollup's settings that block validation reads.
#[derive(Clone, Debug)]
pub struct RollupConfig {
    /// Code hashes of the scripts that externally-owned accounts may have.
    pub allowed_eoa_type_hashes: Vec<H256>,
    /// How many blocks it takes for a block's deposits and withdrawals to be final.
    pub finality_blocks: u64,
    /// The least capacity that a block producer's stake cell must hold.
    pub required_staking_capacity: u64,
}

} // verus!
