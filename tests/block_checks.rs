use state_validator::block::{
    check_block_timestamp, check_block_transactions, check_block_withdrawals,
    check_state_checkpoints, AccountMerkleState, BlockMerkleState, BlockProofs, GlobalState, L2Block,
    Status, SubmitTransactions, SubmitWithdrawals,
};
use state_validator::context::RollupConfig;
use state_validator::error::Error;
use state_validator::hash::H256;
use state_validator::state::AccountState;
use state_validator::submit::{
    load_block_context_and_state, verify_block_producer, verify_reverted_block_hashes, StakeCell,
    StakeLockArgs,
};

fn h(b: u8) -> H256 {
    H256([b; 32])
}

fn global(block_count: u64, version: u8, tip_ts: u64) -> GlobalState {
    GlobalState {
        rollup_config_hash: h(1),
        account: AccountMerkleState { merkle_root: h(2), count: 3 },
        block: BlockMerkleState { merkle_root: h(4), count: block_count },
        reverted_block_root: h(0),
        tip_block_hash: h(6),
        tip_block_timestamp: tip_ts,
        last_finalized_block_number: 0,
        status: Status::Running,
        version,
    }
}

fn block(number: u64) -> L2Block {
    L2Block {
        number,
        block_producer_id: 3,
        stake_cell_owner_lock_hash: h(8),
        timestamp: 0,
        parent_block_hash: h(6),
        prev_account: AccountMerkleState { merkle_root: h(2), count: 3 },
        post_account: AccountMerkleState { merkle_root: h(12), count: 3 },
        submit_transactions: SubmitTransactions { tx_witness_root: h(20), tx_count: 0, prev_state_checkpoint: h(21) },
        submit_withdrawals: SubmitWithdrawals { withdrawal_witness_root: h(22), withdrawal_count: 0 },
        state_checkpoint_list: vec![],
        transactions: vec![],
        withdrawals: vec![],
    }
}

fn proofs() -> BlockProofs {
    BlockProofs {
        block_hash: h(30),
        tx_witness_root: h(20),
        withdrawal_witness_root: h(22),
        prev_block_slot_empty: true,
        post_block_slot_filled: true,
        kv_state_root: Some(h(2)),
        post_account_checkpoint: h(21),
    }
}

fn config() -> RollupConfig {
    RollupConfig { allowed_eoa_type_hashes: vec![h(3)], finality_blocks: 4, required_staking_capacity: 1000 }
}

fn post_of(prev: &GlobalState) -> GlobalState {
    let mut post = *prev;
    post.block.count = prev.block.count + 1;
    post.account = AccountMerkleState { merkle_root: h(12), count: 3 };
    post
}

#[test]
fn block_at_expected_number_passes_context_stage() {
    let prev = global(5, 0, 0);
    let post = post_of(&prev);
    let state = AccountState::new(3);
    let ctx = load_block_context_and_state(&h(9), &config(), &block(5), &proofs(), &prev, &post, 0, &state)
        .unwrap();
    assert_eq!(ctx.number, 5);
    assert_eq!(ctx.finalized_number, 1);
    assert!(ctx.block_hash == h(30));
}

#[test]
fn block_at_wrong_number_is_refused() {
    let prev = global(5, 0, 0);
    let post = post_of(&prev);
    let state = AccountState::new(3);
    let r = load_block_context_and_state(&h(9), &config(), &block(6), &proofs(), &prev, &post, 0, &state);
    assert_eq!(r.err(), Some(Error::InvalidBlock));
}

#[test]
fn finalized_number_saturates_at_zero() {
    let prev = global(2, 0, 0);
    let post = post_of(&prev);
    let state = AccountState::new(3);
    let ctx = load_block_context_and_state(&h(9), &config(), &block(2), &proofs(), &prev, &post, 0, &state)
        .unwrap();
    assert_eq!(ctx.finalized_number, 0);
}

#[test]
fn context_rejections_come_in_order() {
    let prev = global(5, 0, 0);
    let post = post_of(&prev);
    let state = AccountState::new(3);
    let cfg = config();
    let mut b = block(5);
    b.parent_block_hash = h(7);
    assert_eq!(load_block_context_and_state(&h(9), &cfg, &b, &proofs(), &prev, &post, 0, &state).err(), Some(Error::InvalidBlock));
    let mut p = proofs();
    p.prev_block_slot_empty = false;
    assert_eq!(load_block_context_and_state(&h(9), &cfg, &block(5), &p, &prev, &post, 0, &state).err(), Some(Error::MerkleProof));
    let mut bad_post = post;
    bad_post.block.count = 7;
    assert_eq!(load_block_context_and_state(&h(9), &cfg, &block(5), &proofs(), &prev, &bad_post, 0, &state).err(), Some(Error::InvalidBlock));
    let mut p = proofs();
    p.post_block_slot_filled = false;
    assert_eq!(load_block_context_and_state(&h(9), &cfg, &block(5), &p, &prev, &post, 0, &state).err(), Some(Error::MerkleProof));
    let mut b = block(5);
    b.prev_account.count = 4;
    assert_eq!(load_block_context_and_state(&h(9), &cfg, &b, &proofs(), &prev, &post, 0, &state).err(), Some(Error::InvalidBlock));
    let mut b = block(5);
    b.post_account.count = 4;
    assert_eq!(load_block_context_and_state(&h(9), &cfg, &b, &proofs(), &prev, &post, 0, &state).err(), Some(Error::InvalidPostGlobalState));
    let mut p = proofs();
    p.kv_state_root = None;
    assert_eq!(load_block_context_and_state(&h(9), &cfg, &block(5), &p, &prev, &post, 0, &state).err(), Some(Error::MerkleProof));
}

#[test]
fn account_view_must_match_previous_root() {
    let prev = global(5, 0, 0);
    let post = post_of(&prev);
    let mut state = AccountState::new(3);
    let mut p = proofs();
    p.kv_state_root = Some(h(99));
    assert!(load_block_context_and_state(&h(9), &config(), &block(5), &p, &prev, &post, 0, &state).is_ok());
    state.load_account(1, h(40), 0);
    assert_eq!(
        load_block_context_and_state(&h(9), &config(), &block(5), &p, &prev, &post, 0, &state).err(),
        Some(Error::MerkleProof)
    );
}

const TIMESTAMP_SINCE: u64 = 0x4000_0000_0000_0000;

#[test]
fn timestamp_is_checked_against_since() {
    // The since value counts seconds; the block timestamp counts milliseconds.
    let prev = global(5, 1, 1000);
    let mut post = post_of(&prev);
    post.tip_block_timestamp = 5000;
    assert_eq!(check_block_timestamp(&prev, &post, 5000, TIMESTAMP_SINCE | 10), Ok(()));
    post.tip_block_timestamp = 10_001;
    assert_eq!(check_block_timestamp(&prev, &post, 10_001, TIMESTAMP_SINCE | 10), Err(Error::InvalidBlock));
    post.tip_block_timestamp = 1000;
    assert_eq!(check_block_timestamp(&prev, &post, 1000, TIMESTAMP_SINCE | 10), Err(Error::InvalidBlock));
    post.tip_block_timestamp = 5000;
    assert_eq!(check_block_timestamp(&prev, &post, 4000, TIMESTAMP_SINCE | 10), Err(Error::InvalidBlock));
}

#[test]
fn since_must_be_absolute_timestamp_after_tip() {
    let prev = global(5, 1, 1000);
    let mut post = post_of(&prev);
    post.tip_block_timestamp = 1500;
    assert_eq!(check_block_timestamp(&prev, &post, 1500, (1u64 << 63) | TIMESTAMP_SINCE | 10), Err(Error::InvalidSince));
    assert_eq!(check_block_timestamp(&prev, &post, 1500, 10), Err(Error::InvalidSince));
    assert_eq!(check_block_timestamp(&prev, &post, 1500, TIMESTAMP_SINCE | 1), Err(Error::InvalidSince));
    assert_eq!(check_block_timestamp(&prev, &post, 1500, TIMESTAMP_SINCE | 0x00ff_ffff_ffff_ffff), Err(Error::InvalidSince));
}

#[test]
fn version_zero_keeps_zero_timestamp() {
    let prev = global(5, 0, 0);
    let mut post = post_of(&prev);
    assert_eq!(check_block_timestamp(&prev, &post, 77, 0), Ok(()));
    post.tip_block_timestamp = 3;
    assert_eq!(check_block_timestamp(&prev, &post, 3, 0), Err(Error::InvalidPostGlobalState));
}

#[test]
fn checkpoint_list_must_cover_withdrawals_and_transactions() {
    let mut b = block(5);
    assert_eq!(check_state_checkpoints(&b, &h(21)), Ok(()));
    assert_eq!(check_state_checkpoints(&b, &h(22)), Err(Error::InvalidStateCheckpoint));
    b.transactions = vec![h(40)];
    assert_eq!(check_state_checkpoints(&b, &h(21)), Err(Error::InvalidStateCheckpoint));
    b.state_checkpoint_list = vec![h(41)];
    assert_eq!(check_state_checkpoints(&b, &h(41)), Ok(()));
    assert_eq!(check_state_checkpoints(&b, &h(21)), Err(Error::InvalidStateCheckpoint));
}

#[test]
fn transaction_declarations_are_checked() {
    let mut b = block(5);
    b.transactions = vec![h(40)];
    b.state_checkpoint_list = vec![h(41)];
    b.submit_transactions.tx_count = 1;
    assert_eq!(check_block_transactions(&b, &h(20), &h(21), &h(41)), Ok(()));
    assert_eq!(check_block_transactions(&b, &h(23), &h(21), &h(41)), Err(Error::MerkleProof));
    assert_eq!(check_block_transactions(&b, &h(20), &h(24), &h(41)), Err(Error::InvalidStateCheckpoint));
    assert_eq!(check_block_transactions(&b, &h(20), &h(21), &h(42)), Err(Error::InvalidStateCheckpoint));
    b.submit_transactions.tx_count = 2;
    assert_eq!(check_block_transactions(&b, &h(20), &h(21), &h(41)), Err(Error::InvalidBlock));
}

#[test]
fn withdrawal_declarations_are_checked() {
    let mut b = block(5);
    assert_eq!(check_block_withdrawals(&b, &h(22)), Ok(()));
    assert_eq!(check_block_withdrawals(&b, &h(23)), Err(Error::MerkleProof));
    b.submit_withdrawals.withdrawal_count = 1;
    assert_eq!(check_block_withdrawals(&b, &h(22)), Err(Error::InvalidBlock));
}

fn stake(number: u64, capacity: u64) -> StakeCell {
    StakeCell { args: StakeLockArgs { owner_lock_hash: h(8), stake_block_number: number }, capacity }
}

#[test]
fn producer_must_post_stake() {
    let prev = global(5, 0, 0);
    let post = post_of(&prev);
    let ctx = load_block_context_and_state(&h(9), &config(), &block(5), &proofs(), &prev, &post, 0, &AccountState::new(3)).unwrap();
    let cfg = config();
    assert_eq!(verify_block_producer(&cfg, &ctx, &Some(stake(5, 1000)), &None), Ok(()));
    assert_eq!(verify_block_producer(&cfg, &ctx, &None, &None), Err(Error::InvalidStakeCell));
    assert_eq!(verify_block_producer(&cfg, &ctx, &Some(stake(5, 999)), &None), Err(Error::InvalidStakeCell));
    assert_eq!(verify_block_producer(&cfg, &ctx, &Some(stake(5, 2000)), &Some(stake(2, 1500))), Ok(()));
    assert_eq!(verify_block_producer(&cfg, &ctx, &Some(stake(4, 2000)), &Some(stake(2, 1500))), Err(Error::InvalidStakeCell));
    assert_eq!(verify_block_producer(&cfg, &ctx, &Some(stake(5, 1200)), &Some(stake(2, 1500))), Err(Error::InvalidStakeCell));
    let mut other = stake(5, 2000);
    other.args.owner_lock_hash = h(9);
    assert_eq!(verify_block_producer(&cfg, &ctx, &Some(other), &Some(stake(2, 1500))), Err(Error::InvalidStakeCell));
}

#[test]
fn reverted_hashes_need_a_proof_unless_both_empty() {
    assert_eq!(verify_reverted_block_hashes(&vec![], &vec![], false), Ok(()));
    assert_eq!(verify_reverted_block_hashes(&vec![h(1)], &vec![], false), Err(Error::MerkleProof));
    assert_eq!(verify_reverted_block_hashes(&vec![h(1)], &vec![1, 2], true), Ok(()));
    assert_eq!(verify_reverted_block_hashes(&vec![], &vec![1], false), Err(Error::MerkleProof));
}
