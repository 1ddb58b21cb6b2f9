use vstd::prelude::*;
use vstd::multiset::Multiset;
use crate::assets::{aggregate, total, totals_fit, AssetMap};
use crate::cells::{CellValue, CustodianCell, DepositCell, WithdrawalCell, WithdrawalRequest};
use crate::context::BlockContext;
use crate::error::Error;
use crate::hash::{same_bytes, H256};
use crate::matching::{lemma_all_matched, lemma_match_step, lemma_no_match, lemma_prefix_count};

verus! {

broadcast use vstd::seq_lib::group_to_multiset_ensures;

/// What a withdrawal cell and a withdrawal request are matched by: the
/// account, the token, the amount and the capacity.
pub type WithdrawalKey = (H256, H256, u128, u64);

pub open spec fn cell_withdrawal_key(c: WithdrawalCell) -> WithdrawalKey {
    (c.account_script_hash, c.value.sudt_script_hash, c.value.amount, c.value.capacity)
}

pub open spec fn request_withdrawal_key(r: WithdrawalRequest) -> WithdrawalKey {
    (r.account_script_hash, r.sudt_script_hash, r.amount, r.capacity)
}

pub open spec fn cell_keys(cells: Seq<WithdrawalCell>) -> Seq<WithdrawalKey> {
    cells.map_values(|c: WithdrawalCell| cell_withdrawal_key(c))
}

pub open spec fn request_keys(requests: Seq<WithdrawalRequest>) -> Seq<WithdrawalKey> {
    requests.map_values(|r: WithdrawalRequest| request_withdrawal_key(r))
}

/// Every withdrawal cell names the block being validated, and the cells and the
/// block's requests pair off one to one by their keys.
pub open spec fn withdrawal_cells_match(
    block_hash: H256,
    number: u64,
    requests: Seq<WithdrawalRequest>,
    cells: Seq<WithdrawalCell>,
) -> bool {
    &&& forall|i: int|
        0 <= i < cells.len() ==> (#[trigger] cells[i]).block_hash == block_hash
            && cells[i].block_number == number
    &&& cell_keys(cells).to_multiset() == request_keys(requests).to_multiset()
}

fn request_matches_cell(r: &WithdrawalRequest, c: &WithdrawalCell) -> (b: bool)
    ensures
        b == (request_withdrawal_key(*r) == cell_withdrawal_key(*c)),
{
    r.account_script_hash == c.account_script_hash && r.sudt_script_hash == c.value.sudt_script_hash
        && r.amount == c.value.amount && r.capacity == c.value.capacity
}

spec fn remaining_keys(requests: Seq<WithdrawalRequest>, rem: Seq<usize>) -> Seq<WithdrawalKey> {
    rem.map_values(|i: usize| request_withdrawal_key(requests[i as int]))
}

/// Checks that every withdrawal cell of the outputs belongs to this block and
/// answers exactly one of its withdrawal requests, and that no request is left
/// without a cell. Each cell takes the first request that it matches.
pub fn check_withdrawal_cells(
    context: &BlockContext,
    requests: &Vec<WithdrawalRequest>,
    cells: &Vec<WithdrawalCell>,
) -> (r: Result<(), Error>)
    ensures
        r is Ok <==> withdrawal_cells_match(context.block_hash, context.number, requests@, cells@),
        r matches Err(e) ==> e == Error::InvalidWithdrawalCell,
{
    let ghost whole: Multiset<WithdrawalKey> = request_keys(requests@).to_multiset();
    let ghost all = cell_keys(cells@);
    let mut rem: Vec<usize> = Vec::new();
    let mut i: usize = 0;
    while i < requests.len()
        invariant
            i <= requests@.len(),
            rem@ == Seq::new(i as nat, |j: int| j as usize),
        decreases requests@.len() - i,
    {
        rem.push(i);
        i = i + 1;
    }
    proof {
        assert(remaining_keys(requests@, rem@) =~= request_keys(requests@));
        assert(all.take(0) =~= Seq::<WithdrawalKey>::empty());
        assert(remaining_keys(requests@, rem@).to_multiset().add(all.take(0).to_multiset()) =~= whole);
    }
    let mut k: usize = 0;
    while k < cells.len()
        invariant
            k <= cells@.len(),
            all == cell_keys(cells@),
            whole == request_keys(requests@).to_multiset(),
            forall|j: int| 0 <= j < rem@.len() ==> rem@[j] < requests@.len(),
            remaining_keys(requests@, rem@).to_multiset().add(all.take(k as int).to_multiset()) == whole,
            forall|j: int|
                0 <= j < k ==> (#[trigger] cells@[j]).block_hash == context.block_hash
                    && cells@[j].block_number == context.number,
        decreases cells@.len() - k,
    {
        let c = &cells[k];
        if c.block_hash != context.block_hash || c.block_number != context.number {
            return Err(Error::InvalidWithdrawalCell);
        }
        let ghost x = cell_withdrawal_key(*c);
        let ghost keys = remaining_keys(requests@, rem@);
        let mut j: usize = 0;
        let mut found = false;
        while j < rem.len() && !found
            invariant
                j <= rem@.len(),
                x == cell_withdrawal_key(*c),
                keys == remaining_keys(requests@, rem@),
                forall|a: int| 0 <= a < rem@.len() ==> rem@[a] < requests@.len(),
                forall|a: int| 0 <= a < j ==> keys[a] != x,
                found ==> j < rem@.len() && keys[j as int] == x,
            decreases rem@.len() - j + (if found { 0int } else { 1int }),
        {
            assert(keys[j as int] == request_withdrawal_key(requests@[rem@[j as int] as int]));
            if request_matches_cell(&requests[rem[j]], c) {
                found = true;
            } else {
                j = j + 1;
            }
        }
        proof {
            assert(all.take(k + 1) =~= all.take(k as int).push(x));
        }
        if !found {
            proof {
                assert forall|a: int| 0 <= a < keys.len() implies keys[a] != x by {}
                assert(!keys.contains(x));
                lemma_prefix_count(all, k + 1, x);
                lemma_no_match(keys, all.take(k as int), whole, x, all.to_multiset().count(x));
            }
            return Err(Error::InvalidWithdrawalCell);
        }
        proof {
            lemma_match_step(keys, j as int, all.take(k as int), whole);
        }
        rem.remove(j);
        proof {
            assert(remaining_keys(requests@, rem@) =~= keys.remove(j as int));
        }
        k = k + 1;
    }
    proof {
        assert(all.take(cells@.len() as int) =~= all);
        lemma_all_matched(remaining_keys(requests@, rem@), all, whole);
    }
    if rem.len() != 0 {
        return Err(Error::InvalidWithdrawalCell);
    }
    Ok(())
}

/// What a custodian cell and a deposit cell are matched by: the deposit's lock
/// arguments and the assets.
pub type DepositKey = (Seq<u8>, CellValue);

pub open spec fn custodian_deposit_key(c: CustodianCell) -> DepositKey {
    (c.deposit_lock_args@, c.value)
}

pub open spec fn deposit_key(d: DepositCell) -> DepositKey {
    (d.lock_args@, d.value)
}

pub open spec fn deposit_keys(deposits: Seq<DepositCell>) -> Seq<DepositKey> {
    deposits.map_values(|d: DepositCell| deposit_key(d))
}

/// A custodian cell is finalized when its deposit's block is at most the
/// finalized block number.
pub open spec fn is_finalized(c: CustodianCell, finalized_number: u64) -> bool {
    c.deposit_block_number <= finalized_number
}

/// The keys of the custodian cells of `s` that are not finalized, in order.
pub open spec fn unfinalized_keys(s: Seq<CustodianCell>, finalized_number: u64) -> Seq<DepositKey>
    decreases s.len(),
{
    if s.len() == 0 {
        Seq::empty()
    } else if is_finalized(s.last(), finalized_number) {
        unfinalized_keys(s.drop_last(), finalized_number)
    } else {
        unfinalized_keys(s.drop_last(), finalized_number).push(custodian_deposit_key(s.last()))
    }
}

/// The assets of the custodian cells of `s` that are finalized, in order.
pub open spec fn finalized_values(s: Seq<CustodianCell>, finalized_number: u64) -> Seq<CellValue>
    decreases s.len(),
{
    if s.len() == 0 {
        Seq::empty()
    } else if is_finalized(s.last(), finalized_number) {
        finalized_values(s.drop_last(), finalized_number).push(s.last().value)
    } else {
        finalized_values(s.drop_last(), finalized_number)
    }
}

/// The outcome of pairing the unfinalized custodian cells with deposit cells:
/// a custodian cell without a deposit of its own is refused first, then a deposit
/// left without a custodian cell.
pub open spec fn custodian_match_outcome(
    custodians: Seq<CustodianCell>,
    finalized_number: u64,
    deposits: Seq<DepositCell>,
) -> Result<(), Error> {
    let u = unfinalized_keys(custodians, finalized_number).to_multiset();
    let d = deposit_keys(deposits).to_multiset();
    if !u.subset_of(d) {
        Err(Error::InvalidCustodianCell)
    } else if u != d {
        Err(Error::InvalidDepositCell)
    } else {
        Ok(())
    }
}

pub open spec fn cell_values(cells: Seq<WithdrawalCell>) -> Seq<CellValue> {
    cells.map_values(|c: WithdrawalCell| c.value)
}

proof fn lemma_unfinalized_prefix(s: Seq<CustodianCell>, f: u64, n: int, x: DepositKey)
    requires
        0 <= n <= s.len(),
    ensures
        unfinalized_keys(s.take(n), f).to_multiset().count(x) <= unfinalized_keys(
            s,
            f,
        ).to_multiset().count(x),
    decreases s.len() - n,
{
    broadcast use vstd::multiset::group_multiset_axioms;

    if n == s.len() {
        assert(s.take(n) =~= s);
    } else {
        lemma_unfinalized_prefix(s, f, n + 1, x);
        assert(s.take(n + 1).drop_last() =~= s.take(n));
    }
}

spec fn remaining_deposit_keys(deposits: Seq<DepositCell>, rem: Seq<usize>) -> Seq<DepositKey> {
    rem.map_values(|i: usize| deposit_key(deposits[i as int]))
}

fn deposit_matches_custodian(d: &DepositCell, c: &CustodianCell) -> (b: bool)
    ensures
        b == (deposit_key(*d) == custodian_deposit_key(*c)),
{
    same_bytes(&c.deposit_lock_args, &d.lock_args) && c.value.same_as(&d.value)
}

/// Pairs each unfinalized custodian cell with the first deposit cell left that has
/// its key, and hands back the assets of the finalized custodian cells.
fn match_custodians(
    custodians: &Vec<CustodianCell>,
    finalized_number: u64,
    deposits: &Vec<DepositCell>,
) -> (r: Result<Vec<CellValue>, Error>)
    ensures
        r matches Err(e) ==> custodian_match_outcome(custodians@, finalized_number, deposits@)
            == Err::<(), Error>(e),
        r matches Ok(v) ==> custodian_match_outcome(custodians@, finalized_number, deposits@)
            is Ok && v@ == finalized_values(custodians@, finalized_number),
{
    let ghost whole = deposit_keys(deposits@).to_multiset();
    let ghost all = unfinalized_keys(custodians@, finalized_number);
    let mut rem: Vec<usize> = Vec::new();
    let mut i: usize = 0;
    while i < deposits.len()
        invariant
            i <= deposits@.len(),
            rem@ == Seq::new(i as nat, |j: int| j as usize),
        decreases deposits@.len() - i,
    {
        rem.push(i);
        i = i + 1;
    }
    let mut finalized: Vec<CellValue> = Vec::new();
    proof {
        assert(remaining_deposit_keys(deposits@, rem@) =~= deposit_keys(deposits@));
        assert(custodians@.take(0) =~= Seq::<CustodianCell>::empty());
        assert(unfinalized_keys(custodians@.take(0), finalized_number) =~= Seq::<DepositKey>::empty());
        assert(remaining_deposit_keys(deposits@, rem@).to_multiset().add(
            unfinalized_keys(custodians@.take(0), finalized_number).to_multiset(),
        ) =~= whole);
    }
    let mut k: usize = 0;
    while k < custodians.len()
        invariant
            k <= custodians@.len(),
            all == unfinalized_keys(custodians@, finalized_number),
            whole == deposit_keys(deposits@).to_multiset(),
            forall|j: int| 0 <= j < rem@.len() ==> rem@[j] < deposits@.len(),
            remaining_deposit_keys(deposits@, rem@).to_multiset().add(
                unfinalized_keys(custodians@.take(k as int), finalized_number).to_multiset(),
            ) == whole,
            finalized@ == finalized_values(custodians@.take(k as int), finalized_number),
        decreases custodians@.len() - k,
    {
        let c = &custodians[k];
        proof {
            assert(custodians@.take(k + 1).drop_last() =~= custodians@.take(k as int));
        }
        if c.deposit_block_number <= finalized_number {
            finalized.push(c.value);
        } else {
            let ghost x = custodian_deposit_key(*c);
            let ghost keys = remaining_deposit_keys(deposits@, rem@);
            let ghost matched = unfinalized_keys(custodians@.take(k as int), finalized_number);
            let mut j: usize = 0;
            let mut found = false;
            while j < rem.len() && !found
                invariant
                    j <= rem@.len(),
                    x == custodian_deposit_key(*c),
                    keys == remaining_deposit_keys(deposits@, rem@),
                    forall|a: int| 0 <= a < rem@.len() ==> rem@[a] < deposits@.len(),
                    forall|a: int| 0 <= a < j ==> keys[a] != x,
                    found ==> j < rem@.len() && keys[j as int] == x,
                decreases rem@.len() - j + (if found { 0int } else { 1int }),
            {
                assert(keys[j as int] == deposit_key(deposits@[rem@[j as int] as int]));
                if deposit_matches_custodian(&deposits[rem[j]], c) {
                    found = true;
                } else {
                    j = j + 1;
                }
            }
            if !found {
                proof {
                    assert forall|a: int| 0 <= a < keys.len() implies keys[a] != x by {}
                    assert(!keys.contains(x));
                    lemma_unfinalized_prefix(custodians@, finalized_number, k + 1, x);
                    lemma_no_match(keys, matched, whole, x, all.to_multiset().count(x));
                    assert(!all.to_multiset().subset_of(whole));
                }
                return Err(Error::InvalidCustodianCell);
            }
            proof {
                lemma_match_step(keys, j as int, matched, whole);
            }
            rem.remove(j);
            proof {
                assert(remaining_deposit_keys(deposits@, rem@) =~= keys.remove(j as int));
            }
        }
        k = k + 1;
    }
    proof {
        broadcast use vstd::multiset::group_multiset_axioms;

        assert(custodians@.take(custodians@.len() as int) =~= custodians@);
        let keys = remaining_deposit_keys(deposits@, rem@);
        lemma_all_matched(keys, all, whole);
        assert(all.to_multiset().subset_of(whole));
    }
    if rem.len() != 0 {
        return Err(Error::InvalidDepositCell);
    }
    Ok(finalized)
}

fn values_of(cells: &Vec<WithdrawalCell>) -> (r: Vec<CellValue>)
    ensures
        r@ == cell_values(cells@),
{
    let mut r: Vec<CellValue> = Vec::new();
    let mut i: usize = 0;
    while i < cells.len()
        invariant
            i <= cells@.len(),
            r@ == cell_values(cells@).take(i as int),
        decreases cells@.len() - i,
    {
        r.push(cells[i].value);
        proof {
            assert(cell_values(cells@).take(i + 1) =~= cell_values(cells@).take(i as int).push(cells@[i as int].value));
        }
        i = i + 1;
    }
    proof {
        assert(cell_values(cells@).take(cells@.len() as int) =~= cell_values(cells@));
    }
    r
}

/// The outcome of the input side: the reverted deposits must pair off with the
/// unfinalized input custodian cells, and the finalized input custodian cells
/// must hold at least what the output withdrawal cells take, token by token.
pub open spec fn input_custodian_outcome(
    custodians: Seq<CustodianCell>,
    finalized_number: u64,
    reverted_deposits: Seq<DepositCell>,
    withdrawals: Seq<WithdrawalCell>,
) -> Result<(), Error> {
    let f = finalized_values(custodians, finalized_number);
    let w = cell_values(withdrawals);
    match custodian_match_outcome(custodians, finalized_number, reverted_deposits) {
        Err(e) => Err(e),
        Ok(_) => if !totals_fit(w) || !totals_fit(f) {
            Err(Error::AmountOverflow)
        } else if exists|t: H256| #[trigger] total(w, t) > total(f, t) {
            Err(Error::InsufficientInputFinalizedAssets)
        } else {
            Ok(())
        },
    }
}

/// Checks the input custodian cells against the reverted deposit cells of the
/// outputs and the withdrawal cells of the outputs, and returns what the
/// finalized input custodian cells hold beyond those withdrawals.
pub fn check_input_custodian_cells(
    context: &BlockContext,
    custodians: &Vec<CustodianCell>,
    reverted_deposits: &Vec<DepositCell>,
    withdrawals: &Vec<WithdrawalCell>,
) -> (r: Result<AssetMap, Error>)
    ensures
        r matches Err(e) ==> input_custodian_outcome(
            custodians@,
            context.finalized_number,
            reverted_deposits@,
            withdrawals@,
        ) == Err::<(), Error>(e),
        r matches Ok(m) ==> input_custodian_outcome(
            custodians@,
            context.finalized_number,
            reverted_deposits@,
            withdrawals@,
        ) is Ok && m.wf() && forall|t: H256| #[trigger] m.amount(t) == total(
            finalized_values(custodians@, context.finalized_number),
            t,
        ) - total(cell_values(withdrawals@), t),
{
    let finalized = match match_custodians(custodians, context.finalized_number, reverted_deposits) {
        Ok(v) => v,
        Err(e) => {
            return Err(e);
        },
    };
    let withdrawal_values = values_of(withdrawals);
    let withdrawal_assets = match aggregate(&withdrawal_values) {
        Ok(m) => m,
        Err(e) => {
            return Err(e);
        },
    };
    let mut input_finalized_assets = match aggregate(&finalized) {
        Ok(m) => m,
        Err(e) => {
            return Err(e);
        },
    };
    let ghost before = input_finalized_assets;
    if !input_finalized_assets.checked_sub_all(&withdrawal_assets) {
        proof {
            let t = choose|t: H256| !(#[trigger] withdrawal_assets.amount(t) <= before.amount(t));
            assert(total(withdrawal_values@, t) > total(finalized@, t));
        }
        return Err(Error::InsufficientInputFinalizedAssets);
    }
    proof {
        assert forall|t: H256| !(#[trigger] total(withdrawal_values@, t) > total(finalized@, t)) by {
            assert(withdrawal_assets.amount(t) <= before.amount(t));
        }
    }
    Ok(input_finalized_assets)
}

/// The outcome of the output side: the deposit cells of the inputs must pair off
/// with the unfinalized output custodian cells, and the finalized output custodian
/// cells must hold exactly the reverted withdrawals of the inputs plus what the
/// input side left (`input_finalized`, a balance per token), token by token.
pub open spec fn output_custodian_outcome(
    custodians: Seq<CustodianCell>,
    finalized_number: u64,
    deposits: Seq<DepositCell>,
    reverted_withdrawals: Seq<WithdrawalCell>,
    input_finalized: spec_fn(H256) -> int,
) -> Result<(), Error> {
    let o = finalized_values(custodians, finalized_number);
    let w = cell_values(reverted_withdrawals);
    match custodian_match_outcome(custodians, finalized_number, deposits) {
        Err(e) => Err(e),
        Ok(_) => if !totals_fit(w) || !totals_fit(o) {
            Err(Error::AmountOverflow)
        } else if exists|t: H256| #[trigger] total(w, t) > total(o, t) {
            Err(Error::InsufficientOutputFinalizedAssets)
        } else if exists|t: H256|
            #[trigger] input_finalized(t) > total(o, t) - total(w, t) {
            Err(Error::InsufficientOutputFinalizedAssets)
        } else if exists|t: H256|
            #[trigger] input_finalized(t) != total(o, t) - total(w, t) {
            Err(Error::InsufficientInputFinalizedAssets)
        } else {
            Ok(())
        },
    }
}

/// The balances of `m`, token by token.
pub open spec fn amounts_of(m: AssetMap) -> spec_fn(H256) -> int {
    |t: H256| m.amount(t)
}

/// Checks the output custodian cells against the deposit cells of the inputs,
/// the reverted withdrawal cells of the inputs and what the input side left.
pub fn check_output_custodian_cells(
    context: &BlockContext,
    custodians: &Vec<CustodianCell>,
    deposits: &Vec<DepositCell>,
    reverted_withdrawals: &Vec<WithdrawalCell>,
    input_finalized: &AssetMap,
) -> (r: Result<(), Error>)
    requires
        input_finalized.wf(),
    ensures
        r == output_custodian_outcome(
            custodians@,
            context.finalized_number,
            deposits@,
            reverted_withdrawals@,
            amounts_of(*input_finalized),
        ),
{
    let finalized = match match_custodians(custodians, context.finalized_number, deposits) {
        Ok(v) => v,
        Err(e) => {
            return Err(e);
        },
    };
    let reverted_values = values_of(reverted_withdrawals);
    let reverted_assets = match aggregate(&reverted_values) {
        Ok(m) => m,
        Err(e) => {
            return Err(e);
        },
    };
    let mut output_finalized_assets = match aggregate(&finalized) {
        Ok(m) => m,
        Err(e) => {
            return Err(e);
        },
    };
    let ghost before = output_finalized_assets;
    if !output_finalized_assets.checked_sub_all(&reverted_assets) {
        proof {
            let t = choose|t: H256| !(#[trigger] reverted_assets.amount(t) <= before.amount(t));
            assert(total(reverted_values@, t) > total(finalized@, t));
        }
        return Err(Error::InsufficientOutputFinalizedAssets);
    }
    let ghost middle = output_finalized_assets;
    if !output_finalized_assets.checked_sub_all(input_finalized) {
        proof {
            let t = choose|t: H256| !(#[trigger] input_finalized.amount(t) <= middle.amount(t));
            assert(input_finalized.amount(t) > total(finalized@, t) - total(reverted_values@, t));
            assert(amounts_of(*input_finalized)(t) > total(finalized@, t) - total(reverted_values@, t));
        }
        return Err(Error::InsufficientOutputFinalizedAssets);
    }
    proof {
        assert forall|t: H256| !(#[trigger] total(reverted_values@, t) > total(finalized@, t)) by {
            assert(reverted_assets.amount(t) <= before.amount(t));
        }
        assert forall|t: H256|
            !(#[trigger] input_finalized.amount(t) > total(finalized@, t) - total(reverted_values@, t)) by {
            assert(input_finalized.amount(t) <= middle.amount(t));
        }
    }
    if !output_finalized_assets.is_all_zero() {
        proof {
            let t = choose|t: H256| !(#[trigger] output_finalized_assets.amount(t) == 0);
            assert(input_finalized.amount(t) != total(finalized@, t) - total(reverted_values@, t));
            assert(amounts_of(*input_finalized)(t) != total(finalized@, t) - total(reverted_values@, t));
        }
        return Err(Error::InsufficientInputFinalizedAssets);
    }
    proof {
        assert forall|t: H256|
            !(#[trigger] input_finalized.amount(t) != total(finalized@, t) - total(reverted_values@, t)) by {
            assert(output_finalized_assets.amount(t) == 0);
        }
    }
    Ok(())
}

/// Value is conserved by a valid block: when both the input side and the output
/// side of the custodian checks pass, the finalized custodian assets of the inputs
/// plus the reverted withdrawals equal the finalized custodian assets of the
/// outputs plus the new withdrawals, token by token; and the unfinalized
/// custodian cells of each side pair off exactly with the deposit cells of the
/// other side.
pub proof fn lemma_conservation(
    input_custodians: Seq<CustodianCell>,
    output_custodians: Seq<CustodianCell>,
    finalized_number: u64,
    input_deposits: Seq<DepositCell>,
    output_deposits: Seq<DepositCell>,
    input_withdrawals: Seq<WithdrawalCell>,
    output_withdrawals: Seq<WithdrawalCell>,
)
    requires
        input_custodian_outcome(input_custodians, finalized_number, output_deposits, output_withdrawals)
            is Ok,
        output_custodian_outcome(
            output_custodians,
            finalized_number,
            input_deposits,
            input_withdrawals,
            |t: H256|
                total(finalized_values(input_custodians, finalized_number), t) - total(
                    cell_values(output_withdrawals),
                    t,
                ),
        ) is Ok,
    ensures
        forall|t: H256|
            #[trigger] total(finalized_values(input_custodians, finalized_number), t) + total(
                cell_values(input_withdrawals),
                t,
            ) == total(finalized_values(output_custodians, finalized_number), t) + total(
                cell_values(output_withdrawals),
                t,
            ),
        unfinalized_keys(input_custodians, finalized_number).to_multiset() == deposit_keys(
            output_deposits,
        ).to_multiset(),
        unfinalized_keys(output_custodians, finalized_number).to_multiset() == deposit_keys(
            input_deposits,
        ).to_multiset(),
{
    let fin = |t: H256|
        total(finalized_values(input_custodians, finalized_number), t) - total(
            cell_values(output_withdrawals),
            t,
        );
    assert forall|t: H256|
        #[trigger] total(finalized_values(input_custodians, finalized_number), t) + total(
            cell_values(input_withdrawals),
            t,
        ) == total(finalized_values(output_custodians, finalized_number), t) + total(
            cell_values(output_withdrawals),
            t,
        ) by {
        assert(!(fin(t) != total(finalized_values(output_custodians, finalized_number), t) - total(
            cell_values(input_withdrawals),
            t,
        )));
    }
}

/// Keys of items in a reordered sequence form the same multiset.
proof fn lemma_map_values_reorder<A, B>(s1: Seq<A>, s2: Seq<A>, f: spec_fn(A) -> B)
    requires
        s1.to_multiset() == s2.to_multiset(),
    ensures
        s1.map_values(f).to_multiset() == s2.map_values(f).to_multiset(),
    decreases s1.len(),
{
    broadcast use vstd::multiset::group_multiset_axioms;

    if s1.len() == 0 {
        assert(s1.to_multiset().len() == 0);
        assert(s2.to_multiset().len() == s2.len());
        assert(s2.len() == 0);
        assert(s1.map_values(f) =~= Seq::<B>::empty());
        assert(s2.map_values(f) =~= Seq::<B>::empty());
    } else {
        let x = s1.last();
        assert(s1.to_multiset().count(x) > 0) by {
            assert(s1.contains(x)) by {
                assert(s1[s1.len() - 1] == x);
            }
        }
        assert(s2.contains(x));
        let i = choose|i: int| 0 <= i < s2.len() && s2[i] == x;
        assert(s1.drop_last().push(x) =~= s1);
        assert(s1.drop_last().to_multiset() == s2.remove(i).to_multiset()) by {
            assert(s1.drop_last().to_multiset() =~= s1.to_multiset().remove(x));
        }
        lemma_map_values_reorder(s1.drop_last(), s2.remove(i), f);
        assert(s1.map_values(f) =~= s1.drop_last().map_values(f).push(f(x)));
        assert(s2.remove(i).map_values(f) =~= s2.map_values(f).remove(i));
        assert(s2.map_values(f)[i] == f(x));
        assert(s2.map_values(f).remove(i).to_multiset() =~= s2.map_values(f).to_multiset().remove(f(x)));
        assert(s2.map_values(f).to_multiset().count(f(x)) > 0) by {
            assert(s2.map_values(f).contains(f(x)));
        }
        assert(s1.map_values(f).to_multiset() =~= s2.map_values(f).to_multiset());
    }
}

/// Reordering the withdrawal cells, or the block's withdrawal requests, does not
/// change whether they match.
pub proof fn lemma_withdrawal_match_order_free(
    block_hash: H256,
    number: u64,
    requests1: Seq<WithdrawalRequest>,
    requests2: Seq<WithdrawalRequest>,
    cells1: Seq<WithdrawalCell>,
    cells2: Seq<WithdrawalCell>,
)
    requires
        requests1.to_multiset() == requests2.to_multiset(),
        cells1.to_multiset() == cells2.to_multiset(),
    ensures
        withdrawal_cells_match(block_hash, number, requests1, cells1) == withdrawal_cells_match(
            block_hash,
            number,
            requests2,
            cells2,
        ),
{
    lemma_map_values_reorder(requests1, requests2, |r: WithdrawalRequest| request_withdrawal_key(r));
    lemma_map_values_reorder(cells1, cells2, |c: WithdrawalCell| cell_withdrawal_key(c));
    assert((forall|i: int|
        0 <= i < cells1.len() ==> (#[trigger] cells1[i]).block_hash == block_hash
            && cells1[i].block_number == number) == (forall|i: int|
        0 <= i < cells2.len() ==> (#[trigger] cells2[i]).block_hash == block_hash
            && cells2[i].block_number == number)) by {
        if forall|i: int|
            0 <= i < cells1.len() ==> (#[trigger] cells1[i]).block_hash == block_hash
                && cells1[i].block_number == number {
            lemma_all_of_reordered(cells1, cells2, block_hash, number);
        }
        if forall|i: int|
            0 <= i < cells2.len() ==> (#[trigger] cells2[i]).block_hash == block_hash
                && cells2[i].block_number == number {
            lemma_all_of_reordered(cells2, cells1, block_hash, number);
        }
    }
}

proof fn lemma_all_of_reordered(s1: Seq<WithdrawalCell>, s2: Seq<WithdrawalCell>, block_hash: H256, number: u64)
    requires
        s1.to_multiset() == s2.to_multiset(),
        forall|i: int|
            0 <= i < s1.len() ==> (#[trigger] s1[i]).block_hash == block_hash && s1[i].block_number
                == number,
    ensures
        forall|i: int|
            0 <= i < s2.len() ==> (#[trigger] s2[i]).block_hash == block_hash && s2[i].block_number
                == number,
{
    assert forall|i: int| 0 <= i < s2.len() implies (#[trigger] s2[i]).block_hash == block_hash
        && s2[i].block_number == number by {
        assert(s2.contains(s2[i]));
        assert(s2.to_multiset().count(s2[i]) > 0);
        assert(s1.contains(s2[i]));
    }
}

/// Reordering the deposit cells does not change the outcome of pairing them
/// with custodian cells.
pub proof fn lemma_deposit_match_order_free(
    custodians: Seq<CustodianCell>,
    finalized_number: u64,
    deposits1: Seq<DepositCell>,
    deposits2: Seq<DepositCell>,
)
    requires
        deposits1.to_multiset() == deposits2.to_multiset(),
    ensures
        custodian_match_outcome(custodians, finalized_number, deposits1) == custodian_match_outcome(
            custodians,
            finalized_number,
            deposits2,
        ),
{
    lemma_map_values_reorder(deposits1, deposits2, |d: DepositCell| deposit_key(d));
}

/// A custodian cell whose deposit block is exactly the finalized block number
/// counts as finalized: its assets join the finalized ones and it is not paired
/// with a deposit.
pub proof fn lemma_finality_boundary(s: Seq<CustodianCell>, c: CustodianCell, finalized_number: u64)
    requires
        c.deposit_block_number == finalized_number,
    ensures
        finalized_values(s.push(c), finalized_number) == finalized_values(s, finalized_number).push(c.value),
        unfinalized_keys(s.push(c), finalized_number) == unfinalized_keys(s, finalized_number),
{
    assert(s.push(c).drop_last() =~= s);
}

} // verus!
