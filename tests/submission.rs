use state_validator::block::{
    AccountMerkleState, BlockMerkleState, BlockProofs, GlobalState, L2Block, Status,
    SubmitTransactions, SubmitWithdrawals,
};
use state_validator::cells::{
    CellValue, CustodianCell, DepositCell, Script, ScriptHashType, WithdrawalCell, WithdrawalRequest,
};
use state_validator::context::RollupConfig;
use state_validator::error::Error;
use state_validator::hash::{to_short_address, H256};
use state_validator::state::{AccountState, CKB_SUDT_ACCOUNT_ID};
use state_validator::submit::{verify, verify_post_state, StakeCell, StakeLockArgs, TransactionCells};

fn h(b: u8) -> H256 {
    H256([b; 32])
}

fn native(capacity: u64) -> CellValue {
    CellValue { sudt_script_hash: H256([0; 32]), amount: 0, capacity }
}

fn config() -> RollupConfig {
    RollupConfig { allowed_eoa_type_hashes: vec![h(3)], finality_blocks: 4, required_staking_capacity: 1000 }
}

fn prev_state() -> GlobalState {
    GlobalState {
        rollup_config_hash: h(1),
        account: AccountMerkleState { merkle_root: h(2), count: 5 },
        block: BlockMerkleState { merkle_root: h(4), count: 10 },
        reverted_block_root: h(0),
        tip_block_hash: h(6),
        tip_block_timestamp: 0,
        last_finalized_block_number: 5,
        status: Status::Running,
        version: 0,
    }
}

fn post_state() -> GlobalState {
    GlobalState {
        account: AccountMerkleState { merkle_root: h(12), count: 6 },
        block: BlockMerkleState { merkle_root: h(14), count: 11 },
        tip_block_hash: h(30),
        last_finalized_block_number: 6,
        ..prev_state()
    }
}

fn withdrawal_request() -> WithdrawalRequest {
    WithdrawalRequest {
        account_script_hash: h(11),
        sudt_script_hash: H256([0; 32]),
        amount: 0,
        capacity: 300,
        nonce: 1,
        fee_sudt_id: CKB_SUDT_ACCOUNT_ID,
        fee_amount: 2,
        l2_sudt_script_hash: h(40),
    }
}

fn block() -> L2Block {
    L2Block {
        number: 10,
        block_producer_id: 3,
        stake_cell_owner_lock_hash: h(8),
        timestamp: 0,
        parent_block_hash: h(6),
        prev_account: AccountMerkleState { merkle_root: h(2), count: 5 },
        post_account: AccountMerkleState { merkle_root: h(12), count: 6 },
        submit_transactions: SubmitTransactions { tx_witness_root: h(20), tx_count: 1, prev_state_checkpoint: h(21) },
        submit_withdrawals: SubmitWithdrawals { withdrawal_witness_root: h(22), withdrawal_count: 1 },
        state_checkpoint_list: vec![h(23), h(24)],
        transactions: vec![h(25)],
        withdrawals: vec![withdrawal_request()],
    }
}

fn proofs() -> BlockProofs {
    BlockProofs {
        block_hash: h(30),
        tx_witness_root: h(20),
        withdrawal_witness_root: h(22),
        prev_block_slot_empty: true,
        post_block_slot_filled: true,
        kv_state_root: Some(h(2)),
        post_account_checkpoint: h(24),
    }
}

fn cells() -> TransactionCells {
    TransactionCells {
        output_withdrawals: vec![WithdrawalCell {
            block_hash: h(30),
            block_number: 10,
            account_script_hash: h(11),
            value: native(300),
        }],
        input_withdrawals: vec![],
        input_deposits: vec![DepositCell {
            lock_args: vec![1, 2, 3],
            account_script: Script { code_hash: h(3), hash_type: ScriptHashType::Type, args: vec![7] },
            account_script_hash: h(13),
            value: native(500),
            l2_sudt_script_hash: h(40),
        }],
        output_deposits: vec![],
        input_custodians: vec![CustodianCell {
            deposit_block_number: 2,
            deposit_lock_args: vec![9],
            value: native(1000),
        }],
        output_custodians: vec![
            CustodianCell { deposit_block_number: 3, deposit_lock_args: vec![9], value: native(700) },
            CustodianCell { deposit_block_number: 10, deposit_lock_args: vec![1, 2, 3], value: native(500) },
        ],
        input_stake: None,
        output_stake: Some(StakeCell {
            args: StakeLockArgs { owner_lock_hash: h(8), stake_block_number: 10 },
            capacity: 1000,
        }),
        input_challenge: false,
        output_challenge: false,
    }
}

fn view() -> AccountState {
    let mut s = AccountState::new(5);
    s.load_account(CKB_SUDT_ACCOUNT_ID, h(40), 0);
    s.load_account(3, h(31), 0);
    s.load_account(4, h(11), 1);
    s.load_balance(CKB_SUDT_ACCOUNT_ID, to_short_address(&h(11)), 1000);
    s
}

#[test]
fn valid_submission_replays_withdrawals_then_deposits() {
    let mut state = view();
    let ctx = verify(&h(9), &config(), &block(), &proofs(), &prev_state(), &post_state(), &cells(), 0, &mut state)
        .unwrap();
    assert_eq!(ctx.finalized_number, 6);
    assert_eq!(state.get_sudt_balance(CKB_SUDT_ACCOUNT_ID, &to_short_address(&h(11))), 698);
    assert_eq!(state.get_sudt_balance(CKB_SUDT_ACCOUNT_ID, &to_short_address(&h(31))), 2);
    assert_eq!(state.get_nonce(4), Ok(2));
    assert_eq!(state.get_account_id_by_script_hash(&h(13)), Some(5));
    assert_eq!(state.get_sudt_balance(CKB_SUDT_ACCOUNT_ID, &to_short_address(&h(13))), 500);
    assert_eq!(verify_post_state(&block(), &proofs(), &prev_state(), &post_state(), &ctx, &h(21)), Ok(()));
    assert_eq!(
        verify_post_state(&block(), &proofs(), &prev_state(), &post_state(), &ctx, &h(26)),
        Err(Error::InvalidStateCheckpoint)
    );
    let mut wrong = post_state();
    wrong.last_finalized_block_number = 7;
    assert_eq!(
        verify_post_state(&block(), &proofs(), &prev_state(), &wrong, &ctx, &h(21)),
        Err(Error::InvalidPostGlobalState)
    );
}

#[test]
fn halted_rollup_refuses_blocks() {
    let mut prev = prev_state();
    prev.status = Status::Halting;
    let mut state = view();
    assert_eq!(
        verify(&h(9), &config(), &block(), &proofs(), &prev, &post_state(), &cells(), 0, &mut state).err(),
        Some(Error::InvalidStatus)
    );
}

#[test]
fn challenge_cell_is_refused() {
    let mut c = cells();
    c.output_challenge = true;
    let mut state = view();
    assert_eq!(
        verify(&h(9), &config(), &block(), &proofs(), &prev_state(), &post_state(), &c, 0, &mut state).err(),
        Some(Error::InvalidChallengeCell)
    );
}

#[test]
fn unbalanced_custody_is_refused_before_replay() {
    let mut c = cells();
    c.output_custodians[0].value = native(600);
    let mut state = view();
    assert_eq!(
        verify(&h(9), &config(), &block(), &proofs(), &prev_state(), &post_state(), &c, 0, &mut state).err(),
        Some(Error::InsufficientOutputFinalizedAssets)
    );
    assert_eq!(state.get_nonce(4), Ok(1));
    c.output_custodians[0].value = native(800);
    assert_eq!(
        verify(&h(9), &config(), &block(), &proofs(), &prev_state(), &post_state(), &c, 0, &mut state).err(),
        Some(Error::InsufficientInputFinalizedAssets)
    );
}

#[test]
fn missing_withdrawal_cell_is_refused() {
    let mut c = cells();
    c.output_withdrawals = vec![];
    let mut state = view();
    assert_eq!(
        verify(&h(9), &config(), &block(), &proofs(), &prev_state(), &post_state(), &c, 0, &mut state).err(),
        Some(Error::InvalidWithdrawalCell)
    );
}

#[test]
fn checkpoint_count_is_checked_first() {
    let mut b = block();
    b.state_checkpoint_list = vec![h(24)];
    let mut state = view();
    assert_eq!(
        verify(&h(9), &config(), &b, &proofs(), &prev_state(), &post_state(), &cells(), 0, &mut state).err(),
        Some(Error::InvalidStateCheckpoint)
    );
}
