use vstd::prelude::*;

verus! {

/// The closed set of reasons for which a block submission is rejected.
#[derive(Clone, Copy, Debug, PartialEq, Eq, Structural)]
pub enum Error {
    /// The previous global state is not in the running status.
    InvalidStatus,
    InvalidBlock,
    InvalidPostGlobalState,
    InvalidStateCheckpoint,
    MerkleProof,
    InvalidWithdrawalCell,
    InvalidDepositCell,
    InvalidCustodianCell,
    InvalidStakeCell,
    InvalidChallengeCell,
    AmountOverflow,
    InsufficientInputFinalizedAssets,
    InsufficientOutputFinalizedAssets,
    UnknownEOAScript,
    InvalidWithdrawalRequest,
    InvalidSince,
    /// An account, script hash or nonce that the block refers to is not in the
    /// account view.
    MissingKey,
    /// A burn asked for more than the account holds.
    InsufficientBalance,
    /// No further account id can be handed out.
    AccountCountOverflow,
    /// Data that does not have the expected layout.
    Encoding,
    WrongSignature,
    /// No input is locked by the owner lock that a lock cell names.
    OwnerCellNotFound,
}

} // verus!
