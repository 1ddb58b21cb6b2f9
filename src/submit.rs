use vstd::prelude::*;
use crate::assets::total;
use crate::block::{
    block_timestamp_outcome, block_transactions_outcome, block_withdrawals_outcome,
    check_block_timestamp, check_block_transactions, check_block_withdrawals,
    check_state_checkpoints, state_checkpoints_outcome, BlockProofs, GlobalState, L2Block, Status,
};
use crate::cells::{CustodianCell, DepositCell, WithdrawalCell};
use crate::context::{BlockContext, RollupConfig};
use crate::error::Error;
use crate::hash::H256;
use crate::layer2::{check_layer2_deposit, check_layer2_withdrawal, deposits_outcome, withdrawals_outcome};
use crate::reconcile::{
    amounts_of, cell_values, check_input_custodian_cells, check_output_custodian_cells,
    check_withdrawal_cells, finalized_values, input_custodian_outcome, output_custodian_outcome,
    withdrawal_cells_match, deposit_keys, lemma_conservation, unfinalized_keys,
};
use crate::state::{AccountState, StateModel};

verus! {

/// The lock arguments of a block producer's stake cell.
#[derive(Clone, Copy, Debug)]
pub struct StakeLockArgs {
    pub owner_lock_hash: H256,
    pub stake_block_number: u64,
}

/// A block producer's stake cell.
#[derive(Clone, Copy, Debug)]
pub struct StakeCell {
    pub args: StakeLockArgs,
    pub capacity: u64,
}

/// The cells of the submitting transaction that validation reads, sorted by
/// kind and side.
#[derive(Clone, Debug)]
pub struct TransactionCells {
    /// New withdrawal cells.
    pub output_withdrawals: Vec<WithdrawalCell>,
    /// Reverted withdrawal cells.
    pub input_withdrawals: Vec<WithdrawalCell>,
    /// Deposits that the block takes in.
    pub input_deposits: Vec<DepositCell>,
    /// Reverted deposits.
    pub output_deposits: Vec<DepositCell>,
    pub input_custodians: Vec<CustodianCell>,
    pub output_custodians: Vec<CustodianCell>,
    /// The block producer's stake cell among the inputs, if any.
    pub input_stake: Option<StakeCell>,
    /// The block producer's stake cell among the outputs, if any.
    pub output_stake: Option<StakeCell>,
    /// Whether the inputs hold a challenge cell of this rollup.
    pub input_challenge: bool,
    /// Whether the outputs hold a challenge cell of this rollup.
    pub output_challenge: bool,
}

/// The block producer must post an output stake cell of at least the required
/// capacity; when it spends an input stake cell, the output must carry the same
/// owner, be staked at this block, and hold no less.
pub open spec fn producer_outcome(
    required_staking_capacity: u64,
    block_number: u64,
    output_stake: Option<StakeCell>,
    input_stake: Option<StakeCell>,
) -> Result<(), Error> {
    match output_stake {
        None => Err(Error::InvalidStakeCell),
        Some(out) => if out.capacity < required_staking_capacity {
            Err(Error::InvalidStakeCell)
        } else {
            match input_stake {
                None => Ok(()),
                Some(inp) => if (StakeLockArgs { stake_block_number: block_number, ..inp.args })
                    != out.args || inp.capacity > out.capacity {
                    Err(Error::InvalidStakeCell)
                } else {
                    Ok(())
                },
            }
        },
    }
}

pub fn verify_block_producer(
    config: &RollupConfig,
    context: &BlockContext,
    output_stake: &Option<StakeCell>,
    input_stake: &Option<StakeCell>,
) -> (r: Result<(), Error>)
    ensures
        r == producer_outcome(config.required_staking_capacity, context.number, *output_stake, *input_stake),
{
    let out = match output_stake {
        Some(c) => c,
        None => {
            return Err(Error::InvalidStakeCell);
        },
    };
    if out.capacity < config.required_staking_capacity {
        return Err(Error::InvalidStakeCell);
    }
    if let Some(inp) = input_stake {
        if inp.args.owner_lock_hash != out.args.owner_lock_hash || context.number
            != out.args.stake_block_number || inp.capacity > out.capacity {
            return Err(Error::InvalidStakeCell);
        }
    }
    Ok(())
}

/// The block number left `finality_blocks` behind `number`, or zero.
pub open spec fn finalized_number_of(number: u64, finality_blocks: u64) -> u64 {
    if number >= finality_blocks {
        (number - finality_blocks) as u64
    } else {
        0
    }
}

/// The checks that tie the block to the previous and the claimed global state,
/// in order, and the context they give.
pub open spec fn context_outcome(
    rollup_type_hash: H256,
    finality_blocks: u64,
    block: L2Block,
    proofs: BlockProofs,
    prev: GlobalState,
    post: GlobalState,
    rollup_input_since: u64,
    view: StateModel,
) -> Result<BlockContext, Error> {
    if block.number != prev.block.count {
        Err(Error::InvalidBlock)
    } else if block_timestamp_outcome(prev, post, block.timestamp, rollup_input_since) is Err {
        Err(block_timestamp_outcome(prev, post, block.timestamp, rollup_input_since)->Err_0)
    } else if block.parent_block_hash != prev.tip_block_hash {
        Err(Error::InvalidBlock)
    } else if !proofs.prev_block_slot_empty {
        Err(Error::MerkleProof)
    } else if block.number + 1 != post.block.count {
        Err(Error::InvalidBlock)
    } else if !proofs.post_block_slot_filled {
        Err(Error::MerkleProof)
    } else if block.prev_account != prev.account {
        Err(Error::InvalidBlock)
    } else if block.post_account != post.account {
        Err(Error::InvalidPostGlobalState)
    } else if proofs.kv_state_root is None {
        Err(Error::MerkleProof)
    } else if !view.is_empty() && proofs.kv_state_root->Some_0 != prev.account.merkle_root {
        Err(Error::MerkleProof)
    } else {
        Ok(
            BlockContext {
                number: block.number,
                finalized_number: finalized_number_of(block.number, finality_blocks),
                timestamp: block.timestamp,
                rollup_type_hash,
                block_hash: proofs.block_hash,
                prev_account_root: prev.account.merkle_root,
            },
        )
    }
}

/// Ties the block to the previous and the claimed global state and derives the
/// block context. `state` is the account view built from the block's key-value
/// proof over `prev.account.count` accounts.
pub fn load_block_context_and_state(
    rollup_type_hash: &H256,
    config: &RollupConfig,
    block: &L2Block,
    proofs: &BlockProofs,
    prev: &GlobalState,
    post: &GlobalState,
    rollup_input_since: u64,
    state: &AccountState,
) -> (r: Result<BlockContext, Error>)
    ensures
        r == context_outcome(
            *rollup_type_hash,
            config.finality_blocks,
            *block,
            *proofs,
            *prev,
            *post,
            rollup_input_since,
            state@,
        ),
{
    let number = block.number;
    if number != prev.block.count {
        return Err(Error::InvalidBlock);
    }
    check_block_timestamp(prev, post, block.timestamp, rollup_input_since)?;
    if block.parent_block_hash != prev.tip_block_hash {
        return Err(Error::InvalidBlock);
    }
    if !proofs.prev_block_slot_empty {
        return Err(Error::MerkleProof);
    }
    if number as u128 + 1 != post.block.count as u128 {
        return Err(Error::InvalidBlock);
    }
    if !proofs.post_block_slot_filled {
        return Err(Error::MerkleProof);
    }
    if !block.prev_account.same_as(&prev.account) {
        return Err(Error::InvalidBlock);
    }
    if !block.post_account.same_as(&post.account) {
        return Err(Error::InvalidPostGlobalState);
    }
    let kv_root = match proofs.kv_state_root {
        Some(root) => root,
        None => {
            return Err(Error::MerkleProof);
        },
    };
    if !state.is_empty() && kv_root != prev.account.merkle_root {
        return Err(Error::MerkleProof);
    }
    Ok(
        BlockContext {
            number,
            finalized_number: number.saturating_sub(config.finality_blocks),
            timestamp: block.timestamp,
            rollup_type_hash: *rollup_type_hash,
            block_hash: proofs.block_hash,
            prev_account_root: prev.account.merkle_root,
        },
    )
}

/// The outcome of a block submission up to the replay of its withdrawals and
/// deposits: each check in turn, the first failure deciding; on success, the
/// block context and the account view after the replay.
pub open spec fn verify_outcome(
    rollup_type_hash: H256,
    config: RollupConfig,
    block: L2Block,
    proofs: BlockProofs,
    prev: GlobalState,
    post: GlobalState,
    cells: TransactionCells,
    rollup_input_since: u64,
    view: StateModel,
) -> Result<(BlockContext, StateModel), Error> {
    if prev.status != Status::Running {
        Err(Error::InvalidStatus)
    } else if state_checkpoints_outcome(block, proofs.post_account_checkpoint) is Err {
        Err(state_checkpoints_outcome(block, proofs.post_account_checkpoint)->Err_0)
    } else if block_withdrawals_outcome(block, proofs.withdrawal_witness_root) is Err {
        Err(block_withdrawals_outcome(block, proofs.withdrawal_witness_root)->Err_0)
    } else {
        match context_outcome(
            rollup_type_hash,
            config.finality_blocks,
            block,
            proofs,
            prev,
            post,
            rollup_input_since,
            view,
        ) {
            Err(e) => Err(e),
            Ok(ctx) => {
                let f = ctx.finalized_number;
                let producer = producer_outcome(
                    config.required_staking_capacity,
                    ctx.number,
                    cells.output_stake,
                    cells.input_stake,
                );
                let inputs = input_custodian_outcome(
                    cells.input_custodians@,
                    f,
                    cells.output_deposits@,
                    cells.output_withdrawals@,
                );
                let input_finalized = |t: H256|
                    total(finalized_values(cells.input_custodians@, f), t) - total(
                        cell_values(cells.output_withdrawals@),
                        t,
                    );
                let outputs = output_custodian_outcome(
                    cells.output_custodians@,
                    f,
                    cells.input_deposits@,
                    cells.input_withdrawals@,
                    input_finalized,
                );
                if producer is Err {
                    Err(producer->Err_0)
                } else if !withdrawal_cells_match(
                    ctx.block_hash,
                    ctx.number,
                    block.withdrawals@,
                    cells.output_withdrawals@,
                ) {
                    Err(Error::InvalidWithdrawalCell)
                } else if inputs is Err {
                    Err(inputs->Err_0)
                } else if outputs is Err {
                    Err(outputs->Err_0)
                } else if cells.input_challenge || cells.output_challenge {
                    Err(Error::InvalidChallengeCell)
                } else {
                    match withdrawals_outcome(view, block.withdrawals@, block.block_producer_id) {
                        Err(e) => Err(e),
                        Ok(m1) => match deposits_outcome(
                            m1,
                            cells.input_deposits@,
                            config.allowed_eoa_type_hashes@,
                        ) {
                            Err(e) => Err(e),
                            Ok(m2) => Ok((ctx, m2)),
                        },
                    }
                }
            },
        }
    }
}

/// Validates a block submission up to and including the replay of the block's
/// withdrawals, then deposits, on the account view `state`, and returns the block
/// context. The caller then takes the checkpoint of the replayed view and
/// completes the validation with `verify_post_state`.
pub fn verify(
    rollup_type_hash: &H256,
    config: &RollupConfig,
    block: &L2Block,
    proofs: &BlockProofs,
    prev_global_state: &GlobalState,
    post_global_state: &GlobalState,
    cells: &TransactionCells,
    rollup_input_since: u64,
    state: &mut AccountState,
) -> (r: Result<BlockContext, Error>)
    ensures
        match verify_outcome(
            *rollup_type_hash,
            *config,
            *block,
            *proofs,
            *prev_global_state,
            *post_global_state,
            *cells,
            rollup_input_since,
            old(state)@,
        ) {
            Ok((ctx, m)) => r == Ok::<BlockContext, Error>(ctx) && final(state)@ == m,
            Err(e) => r == Err::<BlockContext, Error>(e),
        },
{
    if prev_global_state.status != Status::Running {
        return Err(Error::InvalidStatus);
    }
    check_state_checkpoints(block, &proofs.post_account_checkpoint)?;
    check_block_withdrawals(block, &proofs.withdrawal_witness_root)?;
    let context = load_block_context_and_state(
        rollup_type_hash,
        config,
        block,
        proofs,
        prev_global_state,
        post_global_state,
        rollup_input_since,
        state,
    )?;
    verify_block_producer(config, &context, &cells.output_stake, &cells.input_stake)?;
    check_withdrawal_cells(&context, &block.withdrawals, &cells.output_withdrawals)?;
    let input_finalized_assets = check_input_custodian_cells(
        &context,
        &cells.input_custodians,
        &cells.output_deposits,
        &cells.output_withdrawals,
    )?;
    let out = check_output_custodian_cells(
        &context,
        &cells.output_custodians,
        &cells.input_deposits,
        &cells.input_withdrawals,
        &input_finalized_assets,
    );
    proof {
        assert(amounts_of(input_finalized_assets) =~= (|t: H256|
            total(finalized_values(cells.input_custodians@, context.finalized_number), t) - total(
                cell_values(cells.output_withdrawals@),
                t,
            )));
    }
    out?;
    if cells.input_challenge || cells.output_challenge {
        return Err(Error::InvalidChallengeCell);
    }
    check_layer2_withdrawal(state, block.block_producer_id, &block.withdrawals)?;
    check_layer2_deposit(config, state, &cells.input_deposits)?;
    Ok(context)
}

/// The global state that a valid block leads to: the previous one with the
/// block's post account state, the claimed block tree, the block as tip, the
/// new finalized number and the claimed version; a version-0 state keeps a zero
/// tip timestamp.
pub open spec fn expected_post_state(prev: GlobalState, post: GlobalState, block: L2Block, ctx: BlockContext) -> GlobalState {
    GlobalState {
        account: block.post_account,
        block: post.block,
        tip_block_hash: ctx.block_hash,
        tip_block_timestamp: if post.version == 0 {
            0
        } else {
            ctx.timestamp
        },
        last_finalized_block_number: ctx.finalized_number,
        version: post.version,
        ..prev
    }
}

/// Completes the validation after `verify`: the block's transactions against
/// their declarations and the replayed view's checkpoint (`state_checkpoint`),
/// then the claimed global state against the one the block leads to.
pub open spec fn post_state_outcome(
    block: L2Block,
    proofs: BlockProofs,
    prev: GlobalState,
    post: GlobalState,
    ctx: BlockContext,
    state_checkpoint: H256,
) -> Result<(), Error> {
    match block_transactions_outcome(
        block,
        proofs.tx_witness_root,
        state_checkpoint,
        proofs.post_account_checkpoint,
    ) {
        Err(e) => Err(e),
        Ok(_) => if expected_post_state(prev, post, block, ctx) != post {
            Err(Error::InvalidPostGlobalState)
        } else {
            Ok(())
        },
    }
}

pub fn verify_post_state(
    block: &L2Block,
    proofs: &BlockProofs,
    prev_global_state: &GlobalState,
    post_global_state: &GlobalState,
    context: &BlockContext,
    state_checkpoint: &H256,
) -> (r: Result<(), Error>)
    ensures
        r == post_state_outcome(*block, *proofs, *prev_global_state, *post_global_state, *context, *state_checkpoint),
{
    check_block_transactions(
        block,
        &proofs.tx_witness_root,
        state_checkpoint,
        &proofs.post_account_checkpoint,
    )?;
    let expected = GlobalState {
        account: block.post_account,
        block: post_global_state.block,
        tip_block_hash: context.block_hash,
        tip_block_timestamp: if post_global_state.version == 0 {
            0
        } else {
            context.timestamp
        },
        last_finalized_block_number: context.finalized_number,
        version: post_global_state.version,
        ..*prev_global_state
    };
    if !expected.same_as(post_global_state) {
        return Err(Error::InvalidPostGlobalState);
    }
    Ok(())
}

/// The reverted block hashes are proved under the previous state's reverted-block
/// root: nothing to prove when both the hashes and the proof are empty, else the
/// proof must hold (`proof_holds`, the caller's check of `reverted_block_proof`
/// for every hash marked reverted).
pub open spec fn reverted_block_hashes_outcome(hashes: Seq<H256>, proof: Seq<u8>, proof_holds: bool) -> Result<(), Error> {
    if hashes.len() == 0 && proof.len() == 0 {
        Ok(())
    } else if proof_holds {
        Ok(())
    } else {
        Err(Error::MerkleProof)
    }
}

pub fn verify_reverted_block_hashes(
    reverted_block_hashes: &Vec<H256>,
    reverted_block_proof: &Vec<u8>,
    proof_holds: bool,
) -> (r: Result<(), Error>)
    ensures
        r == reverted_block_hashes_outcome(reverted_block_hashes@, reverted_block_proof@, proof_holds),
{
    if reverted_block_hashes.len() == 0 && reverted_block_proof.len() == 0 {
        return Ok(());
    }
    if !proof_holds {
        return Err(Error::MerkleProof);
    }
    Ok(())
}

/// A submission that passes `verify` conserves value: the finalized custodian
/// assets of the inputs plus the reverted withdrawals equal the finalized
/// custodian assets of the outputs plus the new withdrawals, token by token, and
/// every unfinalized custodian cell stands for exactly one deposit cell of the
/// other side.
pub proof fn lemma_valid_submission_conserves_value(
    rollup_type_hash: H256,
    config: RollupConfig,
    block: L2Block,
    proofs: BlockProofs,
    prev: GlobalState,
    post: GlobalState,
    cells: TransactionCells,
    rollup_input_since: u64,
    view: StateModel,
)
    requires
        verify_outcome(rollup_type_hash, config, block, proofs, prev, post, cells, rollup_input_since, view)
            is Ok,
    ensures
        ({
            let f = verify_outcome(
                rollup_type_hash,
                config,
                block,
                proofs,
                prev,
                post,
                cells,
                rollup_input_since,
                view,
            )->Ok_0.0.finalized_number;
            &&& forall|t: H256|
                #[trigger] total(finalized_values(cells.input_custodians@, f), t) + total(
                    cell_values(cells.input_withdrawals@),
                    t,
                ) == total(finalized_values(cells.output_custodians@, f), t) + total(
                    cell_values(cells.output_withdrawals@),
                    t,
                )
            &&& unfinalized_keys(cells.input_custodians@, f).to_multiset() == deposit_keys(
                cells.output_deposits@,
            ).to_multiset()
            &&& unfinalized_keys(cells.output_custodians@, f).to_multiset() == deposit_keys(
                cells.input_deposits@,
            ).to_multiset()
        }),
{
    let ctx = context_outcome(
        rollup_type_hash,
        config.finality_blocks,
        block,
        proofs,
        prev,
        post,
        rollup_input_since,
        view,
    )->Ok_0;
    lemma_conservation(
        cells.input_custodians@,
        cells.output_custodians@,
        ctx.finalized_number,
        cells.input_deposits@,
        cells.output_deposits@,
        cells.input_withdrawals@,
        cells.output_withdrawals@,
    );
}

} // verus!
