use vstd::prelude::*;
use crate::cells::WithdrawalRequest;
use crate::error::Error;
use crate::hash::H256;
use crate::since::{
    is_timestamp_since, since_is_absolute, since_timestamp, since_timestamp_millis,
    SINCE_LOCK_TYPE_FLAG, SINCE_METRIC_MASK, SINCE_METRIC_TIMESTAMP, SINCE_VALUE_MASK,
};

verus! {

/// The root and size of the account tree.
#[derive(Clone, Copy, Debug)]
pub struct AccountMerkleState {
    pub merkle_root: H256,
    pub count: u32,
}

impl AccountMerkleState {
    pub fn same_as(&self, o: &AccountMerkleState) -> (r: bool)
        ensures
            r == (*self == *o),
    {
        self.merkle_root == o.merkle_root && self.count == o.count
    }
}

/// The root and size of the block-history tree.
#[derive(Clone, Copy, Debug)]
pub struct BlockMerkleState {
    pub merkle_root: H256,
    pub count: u64,
}

impl BlockMerkleState {
    pub fn same_as(&self, o: &BlockMerkleState) -> (r: bool)
        ensures
            r == (*self == *o),
    {
        self.merkle_root == o.merkle_root && self.count == o.count
    }
}

/// Whether the rollup accepts blocks.
#[derive(Clone, Copy, Debug, PartialEq, Eq, Structural)]
pub enum Status {
    Running,
    Halting,
}

/// The rollup's committed summary.
#[derive(Clone, Copy, Debug)]
pub struct GlobalState {
    pub rollup_config_hash: H256,
    pub account: AccountMerkleState,
    pub block: BlockMerkleState,
    pub reverted_block_root: H256,
    pub tip_block_hash: H256,
    pub tip_block_timestamp: u64,
    pub last_finalized_block_number: u64,
    pub status: Status,
    pub version: u8,
}

impl GlobalState {
    pub fn same_as(&self, o: &GlobalState) -> (r: bool)
        ensures
            r == (*self == *o),
    {
        self.rollup_config_hash == o.rollup_config_hash && self.account.same_as(&o.account)
            && self.block.same_as(&o.block) && self.reverted_block_root == o.reverted_block_root
            && self.tip_block_hash == o.tip_block_hash && self.tip_block_timestamp
            == o.tip_block_timestamp && self.last_finalized_block_number
            == o.last_finalized_block_number && self.status == o.status && self.version == o.version
    }
}

/// What a block declares of its transactions.
#[derive(Clone, Copy, Debug)]
pub struct SubmitTransactions {
    pub tx_witness_root: H256,
    pub tx_count: u32,
    /// The account tree's checkpoint before the first transaction.
    pub prev_state_checkpoint: H256,
}

/// What a block declares of its withdrawals.
#[derive(Clone, Copy, Debug)]
pub struct SubmitWithdrawals {
    pub withdrawal_witness_root: H256,
    pub withdrawal_count: u32,
}

/// A proposed layer-2 block.
#[derive(Clone, Debug)]
pub struct L2Block {
    pub number: u64,
    pub block_producer_id: u32,
    pub stake_cell_owner_lock_hash: H256,
    pub timestamp: u64,
    pub parent_block_hash: H256,
    pub prev_account: AccountMerkleState,
    pub post_account: AccountMerkleState,
    pub submit_transactions: SubmitTransactions,
    pub submit_withdrawals: SubmitWithdrawals,
    /// The account tree's checkpoint after each withdrawal and each transaction.
    pub state_checkpoint_list: Vec<H256>,
    /// The witness hash of each transaction.
    pub transactions: Vec<H256>,
    pub withdrawals: Vec<WithdrawalRequest>,
}

/// What the block's hashes and Merkle proofs establish, computed from the block
/// by the caller.
#[derive(Clone, Copy, Debug)]
pub struct BlockProofs {
    /// The hash of the block.
    pub block_hash: H256,
    /// The Merkle root of the transactions' witness hashes.
    pub tx_witness_root: H256,
    /// The Merkle root of the withdrawals' witness hashes.
    pub withdrawal_witness_root: H256,
    /// The block proof shows the block's slot empty under the previous block root.
    pub prev_block_slot_empty: bool,
    /// The block proof shows the block's hash in its slot under the claimed block root.
    pub post_block_slot_filled: bool,
    /// The account root that the block's key-value proof gives, or none when the
    /// proof does not build.
    pub kv_state_root: Option<H256>,
    /// The checkpoint of the block's declared post account state.
    pub post_account_checkpoint: H256,
}

/// The checkpoint that the block's checkpoint list ends with: its last entry,
/// or the checkpoint before the transactions when there are none. None when the
/// list is empty although there are transactions.
pub open spec fn last_checkpoint(block: L2Block) -> Option<H256> {
    if block.transactions@.len() == 0 {
        Some(block.submit_transactions.prev_state_checkpoint)
    } else if block.state_checkpoint_list@.len() == 0 {
        None
    } else {
        Some(block.state_checkpoint_list@.last())
    }
}

fn last_state_checkpoint(block: &L2Block) -> (r: Option<H256>)
    ensures
        r == last_checkpoint(*block),
{
    if block.transactions.len() == 0 {
        Some(block.submit_transactions.prev_state_checkpoint)
    } else if block.state_checkpoint_list.len() == 0 {
        None
    } else {
        Some(block.state_checkpoint_list[block.state_checkpoint_list.len() - 1])
    }
}

/// The checkpoint list has one entry per withdrawal and per transaction, and
/// ends with the checkpoint of the declared post account state.
pub open spec fn state_checkpoints_outcome(block: L2Block, post_account_checkpoint: H256) -> Result<(), Error> {
    if block.state_checkpoint_list@.len() != block.withdrawals@.len() + block.transactions@.len() {
        Err(Error::InvalidStateCheckpoint)
    } else if last_checkpoint(block) != Some(post_account_checkpoint) {
        Err(Error::InvalidStateCheckpoint)
    } else {
        Ok(())
    }
}

pub fn check_state_checkpoints(block: &L2Block, post_account_checkpoint: &H256) -> (r: Result<(), Error>)
    ensures
        r == state_checkpoints_outcome(*block, *post_account_checkpoint),
{
    if block.state_checkpoint_list.len() as u128 != block.withdrawals.len() as u128
        + block.transactions.len() as u128 {
        return Err(Error::InvalidStateCheckpoint);
    }
    match last_state_checkpoint(block) {
        Some(last) => {
            if last != *post_account_checkpoint {
                return Err(Error::InvalidStateCheckpoint);
            }
        },
        None => {
            return Err(Error::InvalidStateCheckpoint);
        },
    }
    Ok(())
}

/// The declared withdrawal count is the number of withdrawals, and the declared
/// witness root is the one computed from them.
pub open spec fn block_withdrawals_outcome(block: L2Block, withdrawal_witness_root: H256) -> Result<(), Error> {
    if block.submit_withdrawals.withdrawal_count != block.withdrawals@.len() {
        Err(Error::InvalidBlock)
    } else if block.submit_withdrawals.withdrawal_witness_root != withdrawal_witness_root {
        Err(Error::MerkleProof)
    } else {
        Ok(())
    }
}

pub fn check_block_withdrawals(block: &L2Block, withdrawal_witness_root: &H256) -> (r: Result<(), Error>)
    ensures
        r == block_withdrawals_outcome(*block, *withdrawal_witness_root),
{
    if block.submit_withdrawals.withdrawal_count as usize != block.withdrawals.len() {
        return Err(Error::InvalidBlock);
    }
    if block.submit_withdrawals.withdrawal_witness_root != *withdrawal_witness_root {
        return Err(Error::MerkleProof);
    }
    Ok(())
}

/// The declared transaction count and witness root match the transactions; the
/// account view's checkpoint (`state_checkpoint`, taken after the withdrawals and
/// deposits) is the one declared before the transactions; and the checkpoint list
/// ends with the checkpoint of the declared post account state.
pub open spec fn block_transactions_outcome(
    block: L2Block,
    tx_witness_root: H256,
    state_checkpoint: H256,
    post_account_checkpoint: H256,
) -> Result<(), Error> {
    if block.submit_transactions.tx_count != block.transactions@.len() {
        Err(Error::InvalidBlock)
    } else if block.submit_transactions.tx_witness_root != tx_witness_root {
        Err(Error::MerkleProof)
    } else if state_checkpoint != block.submit_transactions.prev_state_checkpoint {
        Err(Error::InvalidStateCheckpoint)
    } else if last_checkpoint(block) != Some(post_account_checkpoint) {
        Err(Error::InvalidStateCheckpoint)
    } else {
        Ok(())
    }
}

pub fn check_block_transactions(
    block: &L2Block,
    tx_witness_root: &H256,
    state_checkpoint: &H256,
    post_account_checkpoint: &H256,
) -> (r: Result<(), Error>)
    ensures
        r == block_transactions_outcome(*block, *tx_witness_root, *state_checkpoint, *post_account_checkpoint),
{
    if block.submit_transactions.tx_count as usize != block.transactions.len() {
        return Err(Error::InvalidBlock);
    }
    if block.submit_transactions.tx_witness_root != *tx_witness_root {
        return Err(Error::MerkleProof);
    }
    if *state_checkpoint != block.submit_transactions.prev_state_checkpoint {
        return Err(Error::InvalidStateCheckpoint);
    }
    match last_state_checkpoint(block) {
        Some(last) => {
            if last != *post_account_checkpoint {
                return Err(Error::InvalidStateCheckpoint);
            }
        },
        None => {
            return Err(Error::InvalidStateCheckpoint);
        },
    }
    Ok(())
}

/// The timestamp rules. A version-0 post state must keep a zero tip timestamp and
/// is not checked further. Otherwise the rollup input's since value
/// (`rollup_input_since`) must be an absolute timestamp later than the previous
/// tip; the block's timestamp must be the claimed tip timestamp, no later than
/// the since timestamp, and, once the previous state is versioned, later than the
/// previous tip.
pub open spec fn block_timestamp_outcome(
    prev: GlobalState,
    post: GlobalState,
    block_timestamp: u64,
    rollup_input_since: u64,
) -> Result<(), Error> {
    if post.version == 0 && post.tip_block_timestamp != 0 {
        Err(Error::InvalidPostGlobalState)
    } else if post.version == 0 {
        Ok(())
    } else if rollup_input_since & SINCE_LOCK_TYPE_FLAG != 0 {
        Err(Error::InvalidSince)
    } else if !is_timestamp_since(rollup_input_since) || since_timestamp_millis(rollup_input_since)
        > u64::MAX {
        Err(Error::InvalidSince)
    } else {
        let since_ts = since_timestamp_millis(rollup_input_since);
        let tip = prev.tip_block_timestamp;
        if prev.version > 0 && tip >= since_ts {
            Err(Error::InvalidSince)
        } else if block_timestamp != post.tip_block_timestamp || block_timestamp > since_ts
            || (prev.version != 0 && block_timestamp <= tip) {
            Err(Error::InvalidBlock)
        } else {
            Ok(())
        }
    }
}

pub fn check_block_timestamp(
    prev: &GlobalState,
    post: &GlobalState,
    block_timestamp: u64,
    rollup_input_since: u64,
) -> (r: Result<(), Error>)
    ensures
        r == block_timestamp_outcome(*prev, *post, block_timestamp, rollup_input_since),
{
    if post.version == 0 && post.tip_block_timestamp != 0 {
        return Err(Error::InvalidPostGlobalState);
    }
    if post.version == 0 {
        return Ok(());
    }
    if !since_is_absolute(rollup_input_since) {
        return Err(Error::InvalidSince);
    }
    // A timestamp lock whose milliseconds do not fit in 64 bits names no time.
    if rollup_input_since & SINCE_METRIC_MASK == SINCE_METRIC_TIMESTAMP
        && rollup_input_since & SINCE_VALUE_MASK > u64::MAX / 1000 {
        return Err(Error::InvalidSince);
    }
    let since_ts = match since_timestamp(rollup_input_since) {
        Some(t) => t,
        None => {
            return Err(Error::InvalidSince);
        },
    };
    let tip = prev.tip_block_timestamp;
    if prev.version > 0 && tip >= since_ts {
        return Err(Error::InvalidSince);
    }
    if block_timestamp != post.tip_block_timestamp || block_timestamp > since_ts || (prev.version
        != 0 && block_timestamp <= tip) {
        return Err(Error::InvalidBlock);
    }
    Ok(())
}

} // verus!
