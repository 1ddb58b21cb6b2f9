//! Block-submission validation for a layer-2 optimistic rollup: given the previous
//! and the claimed next global state and a proposed block, decides whether the
//! transition is legal.
//!
//! - `assets`: balances per token summed over cells, with checked arithmetic.
//! - `reconcile`: pairing of withdrawal, deposit and custodian cells with the
//!   block's requests, and conservation of the finalized custody.
//! - `state` and `layer2`: the account view and the replay of withdrawals, then
//!   deposits, on it.
//! - `block`: the block's declarations, checkpoints and timestamp.
//! - `submit`: the producer's stake, the block context and the whole sequence.
//! - `lock`: the layout of an account-lock cell's data.

pub mod hash;
pub mod error;
pub mod cells;
pub mod assets;
pub mod matching;
pub mod context;
pub mod reconcile;
pub mod state;
pub mod layer2;
pub mod since;
pub mod block;
pub mod submit;
pub mod lock;
