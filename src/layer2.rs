use vstd::prelude::*;
use crate::cells::{DepositCell, ScriptHashType, WithdrawalRequest};
use crate::context::RollupConfig;
use crate::error::Error;
use crate::hash::{is_zero, lemma_hash_ext, short_address, to_short_address, ShortAddress, H256};
use crate::state::{follows, AccountState, StateModel, CKB_SUDT_ACCOUNT_ID};

verus! {

/// The state with an account for `h`: unchanged if it has one, else with a new one.
pub open spec fn ensure_account(m: StateModel, h: H256) -> Result<StateModel, Error> {
    if m.ids.contains_key(h) {
        Ok(m)
    } else {
        m.create_account(h)
    }
}

/// Applies one deposit: the account must have an allowed externally-owned-account
/// script; it is created if need be, credited with the capacity, and, for a
/// fungible token, credited with the amount on the token's layer-2 account
/// (created if need be), which must not be the native asset's account. A deposit
/// of the native asset must carry no fungible amount.
pub open spec fn deposit_step(m: StateModel, d: DepositCell, allowed: Seq<H256>) -> Result<StateModel, Error> {
    if d.account_script.hash_type != ScriptHashType::Type || !allowed.contains(d.account_script.code_hash) {
        Err(Error::UnknownEOAScript)
    } else {
        let owner = short_address(d.account_script_hash);
        match ensure_account(m, d.account_script_hash) {
            Err(e) => Err(e),
            Ok(m1) => match m1.mint(CKB_SUDT_ACCOUNT_ID, owner, d.value.capacity as u128) {
                Err(e) => Err(e),
                Ok(m2) => if is_zero(d.value.sudt_script_hash) {
                    if d.value.amount != 0 {
                        Err(Error::InvalidDepositCell)
                    } else {
                        Ok(m2)
                    }
                } else {
                    match ensure_account(m2, d.l2_sudt_script_hash) {
                        Err(e) => Err(e),
                        Ok(m3) => if m3.ids[d.l2_sudt_script_hash] == CKB_SUDT_ACCOUNT_ID {
                            Err(Error::InvalidDepositCell)
                        } else {
                            m3.mint(m3.ids[d.l2_sudt_script_hash], owner, d.value.amount)
                        },
                    }
                },
            },
        }
    }
}

/// Applies the deposits `ds` in order, stopping at the first failure.
pub open spec fn deposits_outcome(m: StateModel, ds: Seq<DepositCell>, allowed: Seq<H256>) -> Result<StateModel, Error>
    decreases ds.len(),
{
    if ds.len() == 0 {
        Ok(m)
    } else {
        match deposits_outcome(m, ds.drop_last(), allowed) {
            Err(e) => Err(e),
            Ok(m1) => deposit_step(m1, ds.last(), allowed),
        }
    }
}

fn is_allowed_eoa(config: &RollupConfig, code_hash: &H256) -> (r: bool)
    ensures
        r == config.allowed_eoa_type_hashes@.contains(*code_hash),
{
    let v = &config.allowed_eoa_type_hashes;
    let mut i: usize = 0;
    while i < v.len()
        invariant
            v@ == config.allowed_eoa_type_hashes@,
            i <= v@.len(),
            forall|j: int| 0 <= j < i ==> v@[j] != *code_hash,
        decreases v@.len() - i,
    {
        if v[i] == *code_hash {
            return true;
        }
        i = i + 1;
    }
    false
}

fn find_or_create_account(state: &mut AccountState, h: &H256) -> (r: Result<u32, Error>)
    ensures
        match ensure_account(old(state)@, *h) {
            Ok(m) => r is Ok && final(state)@ == m && m.ids.contains_key(*h) && r == Ok::<u32, Error>(m.ids[*h]),
            Err(e) => r == Err::<u32, Error>(e),
        },
{
    match state.get_account_id_by_script_hash(h) {
        Some(id) => Ok(id),
        None => state.create_account(*h),
    }
}

fn apply_deposit(state: &mut AccountState, config: &RollupConfig, d: &DepositCell) -> (r: Result<(), Error>)
    ensures
        follows(r, final(state)@, deposit_step(old(state)@, *d, config.allowed_eoa_type_hashes@)),
{
    if d.account_script.hash_type != ScriptHashType::Type {
        return Err(Error::UnknownEOAScript);
    }
    if !is_allowed_eoa(config, &d.account_script.code_hash) {
        return Err(Error::UnknownEOAScript);
    }
    find_or_create_account(state, &d.account_script_hash)?;
    let owner = to_short_address(&d.account_script_hash);
    state.mint_sudt(CKB_SUDT_ACCOUNT_ID, &owner, d.value.capacity as u128)?;
    if d.value.sudt_script_hash == H256::zero() {
        proof {
            lemma_hash_ext(d.value.sudt_script_hash, H256::zero_spec());
        }
        if d.value.amount != 0 {
            return Err(Error::InvalidDepositCell);
        }
        return Ok(());
    }
    proof {
        if is_zero(d.value.sudt_script_hash) {
            assert(H256::zero_spec().0@ == Seq::new(32, |i: int| 0u8));
            lemma_hash_ext(d.value.sudt_script_hash, H256::zero_spec());
        }
    }
    let sudt_id = find_or_create_account(state, &d.l2_sudt_script_hash)?;
    if sudt_id == CKB_SUDT_ACCOUNT_ID {
        return Err(Error::InvalidDepositCell);
    }
    state.mint_sudt(sudt_id, &owner, d.value.amount)
}

/// Credits each deposit of the block to its layer-2 account, in order.
pub fn check_layer2_deposit(
    config: &RollupConfig,
    state: &mut AccountState,
    deposits: &Vec<DepositCell>,
) -> (r: Result<(), Error>)
    ensures
        follows(r, final(state)@, deposits_outcome(old(state)@, deposits@, config.allowed_eoa_type_hashes@)),
{
    let mut i: usize = 0;
    while i < deposits.len()
        invariant
            i <= deposits@.len(),
            deposits_outcome(old(state)@, deposits@.take(i as int), config.allowed_eoa_type_hashes@)
                == Ok::<StateModel, Error>(state@),
        decreases deposits@.len() - i,
    {
        proof {
            assert(deposits@.take(i + 1).drop_last() =~= deposits@.take(i as int));
        }
        let step = apply_deposit(state, config, &deposits[i]);
        if let Err(e) = step {
            proof {
                lemma_deposits_failure_stays(old(state)@, deposits@, i + 1, config.allowed_eoa_type_hashes@);
            }
            return Err(e);
        }
        i = i + 1;
    }
    proof {
        assert(deposits@.take(deposits@.len() as int) =~= deposits@);
    }
    Ok(())
}

/// Once a prefix of the deposits fails, all of them fail the same way.
proof fn lemma_deposits_failure_stays(m: StateModel, ds: Seq<DepositCell>, n: int, allowed: Seq<H256>)
    requires
        0 <= n <= ds.len(),
        deposits_outcome(m, ds.take(n), allowed) is Err,
    ensures
        deposits_outcome(m, ds, allowed) == deposits_outcome(m, ds.take(n), allowed),
    decreases ds.len() - n,
{
    if n == ds.len() {
        assert(ds.take(n) =~= ds);
    } else {
        assert(ds.take(n + 1).drop_last() =~= ds.take(n));
        lemma_deposits_failure_stays(m, ds, n + 1, allowed);
    }
}

/// The nonce that follows `n`; it stays at the largest value.
pub open spec fn next_nonce(n: u32) -> u32 {
    if n == u32::MAX {
        u32::MAX
    } else {
        (n + 1) as u32
    }
}

/// The balance changes of one withdrawal, before its nonce is checked: the
/// requester must have an account; it pays the fee to the block producer
/// (`producer`), and its capacity and its fungible amount (on the token's
/// layer-2 account, which must exist) are burned.
pub open spec fn withdrawal_burns(m: StateModel, w: WithdrawalRequest, producer: ShortAddress) -> Result<StateModel, Error> {
    let owner = short_address(w.account_script_hash);
    if !m.ids.contains_key(w.account_script_hash) {
        Err(Error::MissingKey)
    } else {
        match m.burn(w.fee_sudt_id, owner, w.fee_amount) {
            Err(e) => Err(e),
            Ok(m1) => match m1.mint(w.fee_sudt_id, producer, w.fee_amount) {
                Err(e) => Err(e),
                Ok(m2) => match m2.burn(CKB_SUDT_ACCOUNT_ID, owner, w.capacity as u128) {
                    Err(e) => Err(e),
                    Ok(m3) => if !m3.ids.contains_key(w.l2_sudt_script_hash) {
                        Err(Error::MissingKey)
                    } else {
                        m3.burn(m3.ids[w.l2_sudt_script_hash], owner, w.amount)
                    },
                },
            },
        }
    }
}

/// Applies one withdrawal: its balance changes, then the requester's nonce must
/// equal the one the request declares, and is advanced.
pub open spec fn withdrawal_step(m: StateModel, w: WithdrawalRequest, producer: ShortAddress) -> Result<StateModel, Error> {
    match withdrawal_burns(m, w, producer) {
        Err(e) => Err(e),
        Ok(m4) => {
            let id = m.ids[w.account_script_hash];
            if !m4.nonces.contains_key(id) {
                Err(Error::MissingKey)
            } else if m4.nonces[id] != w.nonce {
                Err(Error::InvalidWithdrawalRequest)
            } else {
                m4.set_nonce(id, next_nonce(m4.nonces[id]))
            }
        },
    }
}

/// Applies the withdrawals `ws` in order, stopping at the first failure.
pub open spec fn withdrawals_fold(m: StateModel, ws: Seq<WithdrawalRequest>, producer: ShortAddress) -> Result<StateModel, Error>
    decreases ws.len(),
{
    if ws.len() == 0 {
        Ok(m)
    } else {
        match withdrawals_fold(m, ws.drop_last(), producer) {
            Err(e) => Err(e),
            Ok(m1) => withdrawal_step(m1, ws.last(), producer),
        }
    }
}

/// Applies a block's withdrawals; with any, the block producer's account
/// (`producer_id`) must be known, and collects their fees.
pub open spec fn withdrawals_outcome(m: StateModel, ws: Seq<WithdrawalRequest>, producer_id: u32) -> Result<StateModel, Error> {
    if ws.len() == 0 {
        Ok(m)
    } else if !m.script_hashes.contains_key(producer_id) {
        Err(Error::MissingKey)
    } else {
        withdrawals_fold(m, ws, short_address(m.script_hashes[producer_id]))
    }
}

proof fn lemma_withdrawals_failure_stays(m: StateModel, ws: Seq<WithdrawalRequest>, n: int, p: ShortAddress)
    requires
        0 <= n <= ws.len(),
        withdrawals_fold(m, ws.take(n), p) is Err,
    ensures
        withdrawals_fold(m, ws, p) == withdrawals_fold(m, ws.take(n), p),
    decreases ws.len() - n,
{
    if n == ws.len() {
        assert(ws.take(n) =~= ws);
    } else {
        assert(ws.take(n + 1).drop_last() =~= ws.take(n));
        lemma_withdrawals_failure_stays(m, ws, n + 1, p);
    }
}

fn find_account(state: &AccountState, h: &H256) -> (r: Result<u32, Error>)
    ensures
        r == (if state@.ids.contains_key(*h) {
            Ok(state@.ids[*h])
        } else {
            Err::<u32, Error>(Error::MissingKey)
        }),
{
    match state.get_account_id_by_script_hash(h) {
        Some(id) => Ok(id),
        None => Err(Error::MissingKey),
    }
}

/// Moves `amount` of token `sudt_id` from `payer` to `producer`.
fn pay_fee(
    state: &mut AccountState,
    payer: &ShortAddress,
    producer: &ShortAddress,
    sudt_id: u32,
    amount: u128,
) -> (r: Result<(), Error>)
    ensures
        follows(
            r,
            final(state)@,
            match old(state)@.burn(sudt_id, *payer, amount) {
                Err(e) => Err(e),
                Ok(m1) => m1.mint(sudt_id, *producer, amount),
            },
        ),
{
    state.burn_sudt(sudt_id, payer, amount)?;
    state.mint_sudt(sudt_id, producer, amount)
}

fn apply_withdrawal(state: &mut AccountState, w: &WithdrawalRequest, producer: &ShortAddress) -> (r: Result<(), Error>)
    ensures
        follows(r, final(state)@, withdrawal_step(old(state)@, *w, *producer)),
{
    let id = find_account(state, &w.account_script_hash)?;
    let owner = to_short_address(&w.account_script_hash);
    pay_fee(state, &owner, producer, w.fee_sudt_id, w.fee_amount)?;
    state.burn_sudt(CKB_SUDT_ACCOUNT_ID, &owner, w.capacity as u128)?;
    let sudt_id = find_account(state, &w.l2_sudt_script_hash)?;
    state.burn_sudt(sudt_id, &owner, w.amount)?;
    let nonce = state.get_nonce(id)?;
    if nonce != w.nonce {
        return Err(Error::InvalidWithdrawalRequest);
    }
    state.set_nonce(id, nonce.saturating_add(1))
}

/// Replays the block's withdrawals on the account view, in order: fees to the
/// block producer (`block_producer_id`), burns, and nonces.
pub fn check_layer2_withdrawal(
    state: &mut AccountState,
    block_producer_id: u32,
    withdrawals: &Vec<WithdrawalRequest>,
) -> (r: Result<(), Error>)
    ensures
        follows(r, final(state)@, withdrawals_outcome(old(state)@, withdrawals@, block_producer_id)),
{
    if withdrawals.len() == 0 {
        return Ok(());
    }
    let producer_hash = state.get_script_hash(block_producer_id)?;
    let producer = to_short_address(&producer_hash);
    let ghost start = state@;
    proof {
        assert(withdrawals@.take(0) =~= Seq::<WithdrawalRequest>::empty());
    }
    let mut i: usize = 0;
    while i < withdrawals.len()
        invariant
            i <= withdrawals@.len(),
            withdrawals@.len() > 0,
            start == old(state)@,
            start.script_hashes.contains_key(block_producer_id),
            producer == short_address(start.script_hashes[block_producer_id]),
            withdrawals_fold(start, withdrawals@.take(i as int), producer) == Ok::<StateModel, Error>(state@),
        decreases withdrawals@.len() - i,
    {
        proof {
            assert(withdrawals@.take(i + 1).drop_last() =~= withdrawals@.take(i as int));
        }
        let step = apply_withdrawal(state, &withdrawals[i], &producer);
        if let Err(e) = step {
            proof {
                lemma_withdrawals_failure_stays(start, withdrawals@, i + 1, producer);
            }
            return Err(e);
        }
        i = i + 1;
    }
    proof {
        assert(withdrawals@.take(withdrawals@.len() as int) =~= withdrawals@);
    }
    Ok(())
}

/// A withdrawal that is applied had declared the requester's current nonce, and
/// advances it by one (it stays at the largest value); nothing else of the
/// requester's account record changes.
pub proof fn lemma_withdrawal_advances_nonce(m: StateModel, w: WithdrawalRequest, producer: ShortAddress)
    requires
        withdrawal_step(m, w, producer) is Ok,
    ensures
        m.ids.contains_key(w.account_script_hash),
        m.nonces.contains_key(m.ids[w.account_script_hash]),
        m.nonces[m.ids[w.account_script_hash]] == w.nonce,
        withdrawal_step(m, w, producer)->Ok_0.nonces == m.nonces.insert(
            m.ids[w.account_script_hash],
            next_nonce(w.nonce),
        ),
        w.nonce < u32::MAX ==> withdrawal_step(m, w, producer)->Ok_0.nonces[m.ids[w.account_script_hash]]
            == w.nonce + 1,
{
}

/// A withdrawal whose declared nonce is not the requester's current one is
/// rejected: with `InvalidWithdrawalRequest` once its balance changes go through.
pub proof fn lemma_stale_nonce_rejected(m: StateModel, w: WithdrawalRequest, producer: ShortAddress)
    requires
        m.ids.contains_key(w.account_script_hash),
        m.nonces.contains_key(m.ids[w.account_script_hash]),
        m.nonces[m.ids[w.account_script_hash]] != w.nonce,
    ensures
        withdrawal_step(m, w, producer) is Err,
        withdrawal_burns(m, w, producer) is Ok ==> withdrawal_step(m, w, producer) == Err::<
            StateModel,
            Error,
        >(Error::InvalidWithdrawalRequest),
{
}

} // verus!
