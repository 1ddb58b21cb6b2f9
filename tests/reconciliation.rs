use state_validator::assets::aggregate;
use state_validator::cells::{
    CellValue, CustodianCell, DepositCell, Script, ScriptHashType, WithdrawalCell, WithdrawalRequest,
};
use state_validator::context::BlockContext;
use state_validator::error::Error;
use state_validator::hash::H256;
use state_validator::reconcile::{
    check_input_custodian_cells, check_output_custodian_cells, check_withdrawal_cells,
};

fn h(b: u8) -> H256 {
    H256([b; 32])
}

fn native(capacity: u64) -> CellValue {
    CellValue { sudt_script_hash: H256([0; 32]), amount: 0, capacity }
}

fn token(t: u8, amount: u128, capacity: u64) -> CellValue {
    CellValue { sudt_script_hash: h(t), amount, capacity }
}

fn context(number: u64, finalized_number: u64) -> BlockContext {
    BlockContext {
        number,
        finalized_number,
        timestamp: 0,
        rollup_type_hash: h(9),
        block_hash: h(7),
        prev_account_root: h(0),
    }
}

fn withdrawal_cell(account: u8, value: CellValue) -> WithdrawalCell {
    WithdrawalCell { block_hash: h(7), block_number: 10, account_script_hash: h(account), value }
}

fn request(account: u8, value: CellValue) -> WithdrawalRequest {
    WithdrawalRequest {
        account_script_hash: h(account),
        sudt_script_hash: value.sudt_script_hash,
        amount: value.amount,
        capacity: value.capacity,
        nonce: 0,
        fee_sudt_id: 1,
        fee_amount: 0,
        l2_sudt_script_hash: h(50),
    }
}

fn custodian(number: u64, args: u8, value: CellValue) -> CustodianCell {
    CustodianCell { deposit_block_number: number, deposit_lock_args: vec![args; 4], value }
}

fn deposit(args: u8, value: CellValue) -> DepositCell {
    DepositCell {
        lock_args: vec![args; 4],
        account_script: Script { code_hash: h(3), hash_type: ScriptHashType::Type, args: vec![] },
        account_script_hash: h(args),
        value,
        l2_sudt_script_hash: h(60),
    }
}

#[test]
fn aggregate_sums_tokens_and_capacity() {
    let cells = vec![token(5, 30, 100), token(5, 12, 50), native(7)];
    let m = aggregate(&cells).unwrap();
    assert_eq!(m.get(&h(5)), 42);
    assert_eq!(m.get(&H256([0; 32])), 157);
    assert_eq!(m.get(&h(6)), 0);
}

#[test]
fn aggregate_native_token_amount_adds_to_capacity() {
    let cells = vec![CellValue { sudt_script_hash: H256([0; 32]), amount: 5, capacity: 10 }];
    let m = aggregate(&cells).unwrap();
    assert_eq!(m.get(&H256([0; 32])), 15);
}

#[test]
fn aggregate_rejects_overflow() {
    let cells = vec![token(5, u128::MAX, 0), token(5, 1, 0)];
    assert_eq!(aggregate(&cells).err(), Some(Error::AmountOverflow));
}

#[test]
fn aggregate_of_nothing_is_empty() {
    let m = aggregate(&vec![]).unwrap();
    assert!(m.is_all_zero());
}

#[test]
fn withdrawal_cells_match_requests() {
    let ctx = context(10, 0);
    let reqs = vec![request(1, native(100)), request(2, token(5, 20, 300))];
    let cells = vec![withdrawal_cell(2, token(5, 20, 300)), withdrawal_cell(1, native(100))];
    assert_eq!(check_withdrawal_cells(&ctx, &reqs, &cells), Ok(()));
}

#[test]
fn withdrawal_cells_order_does_not_matter() {
    let ctx = context(10, 0);
    let reqs = vec![request(1, native(100)), request(2, token(5, 20, 300)), request(1, native(100))];
    let a = vec![withdrawal_cell(1, native(100)), withdrawal_cell(2, token(5, 20, 300)), withdrawal_cell(1, native(100))];
    let b = vec![withdrawal_cell(2, token(5, 20, 300)), withdrawal_cell(1, native(100)), withdrawal_cell(1, native(100))];
    assert_eq!(check_withdrawal_cells(&ctx, &reqs, &a), Ok(()));
    assert_eq!(check_withdrawal_cells(&ctx, &reqs, &b), Ok(()));
    let c = vec![withdrawal_cell(2, token(5, 20, 300)), withdrawal_cell(1, native(99)), withdrawal_cell(1, native(100))];
    let d = vec![withdrawal_cell(1, native(100)), withdrawal_cell(1, native(99)), withdrawal_cell(2, token(5, 20, 300))];
    assert_eq!(check_withdrawal_cells(&ctx, &reqs, &c), Err(Error::InvalidWithdrawalCell));
    assert_eq!(check_withdrawal_cells(&ctx, &reqs, &d), Err(Error::InvalidWithdrawalCell));
}

#[test]
fn withdrawal_cell_of_another_block_is_refused() {
    let ctx = context(10, 0);
    let reqs = vec![request(1, native(100))];
    let mut cell = withdrawal_cell(1, native(100));
    cell.block_number = 11;
    assert_eq!(check_withdrawal_cells(&ctx, &reqs, &vec![cell]), Err(Error::InvalidWithdrawalCell));
    let mut cell = withdrawal_cell(1, native(100));
    cell.block_hash = h(8);
    assert_eq!(check_withdrawal_cells(&ctx, &reqs, &vec![cell]), Err(Error::InvalidWithdrawalCell));
}

#[test]
fn withdrawal_request_without_cell_is_refused() {
    let ctx = context(10, 0);
    let reqs = vec![request(1, native(100)), request(2, native(5))];
    let cells = vec![withdrawal_cell(1, native(100))];
    assert_eq!(check_withdrawal_cells(&ctx, &reqs, &cells), Err(Error::InvalidWithdrawalCell));
}

#[test]
fn custodian_at_finalized_number_counts_as_finalized() {
    let ctx = context(10, 4);
    let custodians = vec![custodian(4, 1, native(100))];
    let m = check_input_custodian_cells(&ctx, &custodians, &vec![], &vec![]).unwrap();
    assert_eq!(m.get(&H256([0; 32])), 100);
    let late = vec![custodian(5, 1, native(100))];
    assert_eq!(
        check_input_custodian_cells(&ctx, &late, &vec![], &vec![]).err(),
        Some(Error::InvalidCustodianCell)
    );
}

#[test]
fn withdrawal_beyond_finalized_custody_is_refused() {
    let ctx = context(10, 4);
    let custodians = vec![custodian(1, 1, native(100))];
    let withdrawals = vec![withdrawal_cell(1, native(150))];
    assert_eq!(
        check_input_custodian_cells(&ctx, &custodians, &vec![], &withdrawals).err(),
        Some(Error::InsufficientInputFinalizedAssets)
    );
}

#[test]
fn input_finalized_assets_are_custody_less_withdrawals() {
    let ctx = context(10, 4);
    let custodians = vec![custodian(1, 1, token(5, 80, 1000)), custodian(2, 2, native(500))];
    let withdrawals = vec![withdrawal_cell(1, token(5, 30, 400))];
    let m = check_input_custodian_cells(&ctx, &custodians, &vec![], &withdrawals).unwrap();
    assert_eq!(m.get(&h(5)), 50);
    assert_eq!(m.get(&H256([0; 32])), 1100);
}

#[test]
fn reverted_deposit_pairs_with_unfinalized_custodian() {
    let ctx = context(10, 4);
    let custodians = vec![custodian(8, 1, native(100)), custodian(9, 2, native(40))];
    let reverted = vec![deposit(2, native(40)), deposit(1, native(100))];
    assert!(check_input_custodian_cells(&ctx, &custodians, &reverted, &vec![]).is_ok());
    let extra = vec![deposit(2, native(40)), deposit(1, native(100)), deposit(3, native(1))];
    assert_eq!(
        check_input_custodian_cells(&ctx, &custodians, &extra, &vec![]).err(),
        Some(Error::InvalidDepositCell)
    );
    let wrong = vec![deposit(2, native(41)), deposit(1, native(100))];
    assert_eq!(
        check_input_custodian_cells(&ctx, &custodians, &wrong, &vec![]).err(),
        Some(Error::InvalidCustodianCell)
    );
}

#[test]
fn output_custody_conserves_value() {
    let ctx = context(10, 4);
    // Inputs: 1000 finalized in custody, 50 in a reverted withdrawal; outputs:
    // 300 withdrawn, so 750 must come back to finalized custody.
    let in_custodians = vec![custodian(1, 1, native(1000))];
    let out_withdrawals = vec![withdrawal_cell(1, native(300))];
    let input_finalized =
        check_input_custodian_cells(&ctx, &in_custodians, &vec![], &out_withdrawals).unwrap();
    let in_withdrawals = vec![withdrawal_cell(2, native(50))];
    let out_custodians = vec![custodian(3, 1, native(750)), custodian(10, 6, native(20))];
    let deposits = vec![deposit(6, native(20))];
    assert_eq!(
        check_output_custodian_cells(&ctx, &out_custodians, &deposits, &in_withdrawals, &input_finalized),
        Ok(())
    );
    let short = vec![custodian(3, 1, native(700)), custodian(10, 6, native(20))];
    assert_eq!(
        check_output_custodian_cells(&ctx, &short, &deposits, &in_withdrawals, &input_finalized),
        Err(Error::InsufficientOutputFinalizedAssets)
    );
    let surplus = vec![custodian(3, 1, native(800)), custodian(10, 6, native(20))];
    assert_eq!(
        check_output_custodian_cells(&ctx, &surplus, &deposits, &in_withdrawals, &input_finalized),
        Err(Error::InsufficientInputFinalizedAssets)
    );
}

#[test]
fn reverted_withdrawal_beyond_output_custody_is_refused() {
    let ctx = context(10, 4);
    let input_finalized = aggregate(&vec![]).unwrap();
    let in_withdrawals = vec![withdrawal_cell(2, native(50))];
    let out_custodians = vec![custodian(3, 1, native(10))];
    assert_eq!(
        check_output_custodian_cells(&ctx, &out_custodians, &vec![], &in_withdrawals, &input_finalized),
        Err(Error::InsufficientOutputFinalizedAssets)
    );
}

#[test]
fn deposit_without_custodian_is_refused() {
    let ctx = context(10, 4);
    let input_finalized = aggregate(&vec![]).unwrap();
    let deposits = vec![deposit(6, native(20))];
    assert_eq!(
        check_output_custodian_cells(&ctx, &vec![], &deposits, &vec![], &input_finalized),
        Err(Error::InvalidDepositCell)
    );
    let out_custodians = vec![custodian(10, 7, native(20))];
    assert_eq!(
        check_output_custodian_cells(&ctx, &out_custodians, &deposits, &vec![], &input_finalized),
        Err(Error::InvalidCustodianCell)
    );
}

#[test]
fn deposit_order_does_not_matter() {
    let ctx = context(10, 4);
    let input_finalized = aggregate(&vec![]).unwrap();
    let out_custodians = vec![custodian(9, 1, native(10)), custodian(10, 2, native(20)), custodian(8, 1, native(10))];
    let a = vec![deposit(1, native(10)), deposit(2, native(20)), deposit(1, native(10))];
    let b = vec![deposit(2, native(20)), deposit(1, native(10)), deposit(1, native(10))];
    assert_eq!(check_output_custodian_cells(&ctx, &out_custodians, &a, &vec![], &input_finalized), Ok(()));
    assert_eq!(check_output_custodian_cells(&ctx, &out_custodians, &b, &vec![], &input_finalized), Ok(()));
    let c = vec![deposit(2, native(20)), deposit(1, native(10))];
    let d = vec![deposit(1, native(10)), deposit(2, native(20))];
    assert_eq!(
        check_output_custodian_cells(&ctx, &out_custodians, &c, &vec![], &input_finalized),
        Err(Error::InvalidCustodianCell)
    );
    assert_eq!(
        check_output_custodian_cells(&ctx, &out_custodians, &d, &vec![], &input_finalized),
        Err(Error::InvalidCustodianCell)
    );
}
