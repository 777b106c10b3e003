//! The ways in which building or extending a ledger can fail.

use vstd::prelude::*;

verus! {

/// Why a ledger operation was refused. A refused operation leaves the block
/// or chain it was called on as it was.
#[derive(Clone, Copy, Debug, PartialEq, Eq, Structural)]
pub enum LedgerError {
    /// A configuration error: the difficulty asks for more leading zeros
    /// than a hash has characters.
    Configuration,
    /// No nonce between the block's own and the largest one gives a hash
    /// that meets the difficulty.
    NonceExhausted,
    /// The chain holds no block to build on.
    EmptyChain,
    /// The last block already carries the largest index.
    IndexOverflow,
    /// The system clock reads a time before the Unix epoch.
    ClockBeforeEpoch,
}

impl LedgerError {
    /// A one-line description of the error.
    pub fn message(&self) -> (s: &'static str)
        ensures
            s@ == match *self {
                LedgerError::Configuration => "difficulty exceeds the length of a hash"@,
                LedgerError::NonceExhausted => "no nonce meets the difficulty"@,
                LedgerError::EmptyChain => "the chain has no block to build on"@,
                LedgerError::IndexOverflow => "the block index cannot grow further"@,
                LedgerError::ClockBeforeEpoch => "the system clock is before the Unix epoch"@,
            },
    {
        match self {
            LedgerError::Configuration => "difficulty exceeds the length of a hash",
            LedgerError::NonceExhausted => "no nonce meets the difficulty",
            LedgerError::EmptyChain => "the chain has no block to build on",
            LedgerError::IndexOverflow => "the block index cannot grow further",
            LedgerError::ClockBeforeEpoch => "the system clock is before the Unix epoch",
        }
    }
}

} // verus!
