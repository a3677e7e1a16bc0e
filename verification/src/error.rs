//! The reasons for which an operation is rejected.

use vstd::prelude::*;

verus! {

/// Why an operation was rejected. A rejected operation changes nothing.
#[derive(Clone, Copy, Debug, PartialEq, Eq, Structural)]
pub enum SwapError {
    /// An offer was to be made of nothing or for nothing: one of the two
    /// amounts was zero.
    InvalidAmount,
    /// The account that is to pay is absent or holds less than the amount:
    /// the maker's when an offer is made, the taker's when it is taken.
    InsufficientBalance,
    /// What was named does not agree with what is recorded. At a settlement:
    /// the maker or one of the two assets is not the one that the offer
    /// records. When an offer is made: an offer is recorded at its address
    /// already, or one asset was named for both sides.
    EntryMismatch,
    /// No offer is recorded at the address named: it was taken already, or
    /// never made.
    EntryNotFound,
    /// An address named is not the one derived for its role, or what is
    /// filed there cannot serve in that role: the account of another owner
    /// or asset, another vault than the offer's, an account where a new
    /// vault is to be opened, or the address of a recorded offer acting as a
    /// party.
    DerivationMismatch,
}

} // verus!
