use vstd::prelude::*;
use crate::hash::H256;

verus! {

/// The assets a cell holds: its native capacity and an optional fungible-token
/// balance, identified by the token's script hash (all zero for none).
#[derive(Clone, Copy, Debug)]
pub struct CellValue {
    pub sudt_script_hash: H256,
    pub amount: u128,
    pub capacity: u64,
}

impl CellValue {
    /// Whether two values are the same in every field.
    pub fn same_as(&self, o: &CellValue) -> (r: bool)
        ensures
            r == (*self == *o),
    {
        self.sudt_script_hash == o.sudt_script_hash && self.amount == o.amount && self.capacity
            == o.capacity
    }
}

/// A withdrawal cell of the transaction's outputs (or, reverted, of its inputs):
/// the block that declared the withdrawal, the withdrawing account and the assets.
#[derive(Clone, Copy, Debug)]
pub struct WithdrawalCell {
    pub block_hash: H256,
    pub block_number: u64,
    pub account_script_hash: H256,
    pub value: CellValue,
}

/// A custodian cell: assets held by the rollup since the block that took in
/// their deposit. `deposit_lock_args` is the serialized lock of that deposit.
#[derive(Clone, Debug)]
pub struct CustodianCell {
    pub deposit_block_number: u64,
    pub deposit_lock_args: Vec<u8>,
    pub value: CellValue,
}

/// How a script is identified by its code hash.
#[derive(Clone, Copy, Debug, PartialEq, Eq, Structural)]
pub enum ScriptHashType {
    Data,
    Type,
}

/// A lock or type script.
#[derive(Clone, Debug)]
pub struct Script {
    pub code_hash: H256,
    pub hash_type: ScriptHashType,
    pub args: Vec<u8>,
}

/// A deposit cell: assets sent to the rollup for the layer-2 account whose
/// script is `account_script`. `lock_args` is its serialized lock;
/// `l2_sudt_script_hash` is the script hash of the layer-2 token account that
/// stands for its fungible token.
#[derive(Clone, Debug)]
pub struct DepositCell {
    pub lock_args: Vec<u8>,
    pub account_script: Script,
    pub account_script_hash: H256,
    pub value: CellValue,
    pub l2_sudt_script_hash: H256,
}

/// A withdrawal request of a block. `l2_sudt_script_hash` is the script hash of
/// the layer-2 token account of `sudt_script_hash`.
#[derive(Clone, Copy, Debug)]
pub struct WithdrawalRequest {
    pub account_script_hash: H256,
    pub sudt_script_hash: H256,
    pub amount: u128,
    pub capacity: u64,
    pub nonce: u32,
    pub fee_sudt_id: u32,
    pub fee_amount: u128,
    pub l2_sudt_script_hash: H256,
}

} // verus!
