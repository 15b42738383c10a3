//! Identities of accounts, tokens and callers.
use vstd::prelude::*;

verus! {

/// A 256-bit key of the ledger, held as its high and low halves. Two
/// identities are the same when both halves are equal.
#[derive(Clone, Copy, Debug, PartialEq, Eq, Hash, Structural)]
pub struct Identity {
    pub hi: u128,
    pub lo: u128,
}

} // verus!
