//! The record of one pending exchange.

use crate::address::Address;
use vstd::prelude::*;

verus! {

/// One pending exchange: `amt_token_a_offered` of `token_mint_a`, locked in a
/// vault, for `amt_token_b_wanted` of `token_mint_b`. The record does not
/// change between the making of the offer and its settlement.
#[derive(Clone, Copy, Debug, PartialEq, Eq)]
pub struct Offer {
    /// Chosen by the maker; with the maker it determines the offer's address.
    pub id: u64,
    /// The party that made the offer.
    pub maker: Address,
    /// The asset offered.
    pub token_mint_a: Address,
    /// The asset wanted.
    pub token_mint_b: Address,
    /// The amount of the offered asset that the vault holds.
    pub amt_token_a_offered: u64,
    /// The amount of the wanted asset that settles the offer.
    pub amt_token_b_wanted: u64,
    /// The bump seed with which the offer's address was derived.
    pub bump: u8,
}

impl Offer {
    /// Both amounts are positive and the two assets differ.
    pub open spec fn wf(self) -> bool {
        &&& self.amt_token_a_offered > 0
        &&& self.amt_token_b_wanted > 0
        &&& self.token_mint_a != self.token_mint_b
    }
}

} // verus!
