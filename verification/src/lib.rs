//! A minimal append-only ledger: blocks are sealed with a SHA-256 content
//! hash, mined against a leading-zero difficulty target, and linked into a
//! chain whose integrity can be re-validated at any time.

pub mod block;
pub mod chain;
pub mod clock;
pub mod digest;
pub mod error;
pub mod report;
pub mod text;
pub mod transaction;

pub use block::Block;
pub use chain::Blockchain;
pub use error::LedgerError;
pub use transaction::Transaction;
