//! Off-chain protocol library for a UTXO-style ledger.
//!
//! The crate builds unsigned transaction candidates that create, reclaim and
//! fulfil two kinds of standing orders ("sell" and "swap") encoded as ledger
//! records carrying typed metadata in fixed-position registers.  It contains
//! a declarative box-specification/matching engine, a transaction-candidate
//! assembler that enforces value conservation, and the two order protocols
//! built on top of them.
//!
//! Wallet management, signing, network submission and the querying of an
//! external box-indexing service are outside this crate: every operation
//! here is a pure, synchronous function over already-fetched snapshots of
//! ledger records, and discovery results are re-verified with the matcher
//! before use rather than trusted.

pub mod assembler;
pub mod box_spec;
pub mod errors;
pub mod ledger;
pub mod parsing;
pub mod sell_box;
pub mod swap_box;

pub use assembler::{OutputCandidate, UnsignedTransaction};
pub use box_spec::{AmountRange, BoxSpec, RegisterSpec, TokenSpec};
pub use errors::ProtocolError;
pub use ledger::{Constant, LedgerBox, SType, Token};
pub use parsing::{constant_to_string, constant_to_u64, string_to_constant, u64_to_constant};
pub use sell_box::{SellBox, SellProtocol};
pub use swap_box::{SwapBox, SwapProtocol};
