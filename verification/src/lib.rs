//! A single-node, append-only ledger of hash-linked blocks, each sealed by a
//! proof-of-work search.
//!
//! Every block commits to its own fields and to the commitment of the block
//! before it. The contracts are stated over the views [`block::BlockView`] and
//! [`chain::BlockchainView`].

pub mod block;
pub mod chain;
pub mod clock;
pub mod hashing;
pub mod laws;
pub mod text;

pub use crate::block::{Block, BlockView};
pub use crate::chain::{AppendError, Blockchain, BlockchainView, ChainFault, FaultKind};
