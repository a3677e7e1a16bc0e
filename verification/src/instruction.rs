//! The instructions by which an exchange moves tokens and closes accounts.

use crate::address::Address;
use crate::ledger::{credited, debited, TokenAccount};
use vstd::prelude::*;

verus! {

/// Moves `amount` of `mint` from the account `from` to the account `to`, on
/// the word of `authority`, which must own `from`.
#[derive(Clone, Copy, Debug, PartialEq, Eq)]
pub struct Transfer {
    pub from: Address,
    pub to: Address,
    pub mint: Address,
    pub authority: Address,
    pub amount: u64,
}

/// Closes `account` on the word of `authority` and returns its storage
/// deposit to `destination`.
#[derive(Clone, Copy, Debug, PartialEq, Eq)]
pub struct CloseAccount {
    pub account: Address,
    pub destination: Address,
    pub authority: Address,
}

/// The release of a vault: its whole balance leaves and the vault is closed,
/// both signed for by the offer's own address through `signer_seeds`.
#[derive(Debug, PartialEq, Eq)]
pub struct VaultRelease {
    pub transfer: Transfer,
    pub close: CloseAccount,
    pub signer_seeds: Vec<Vec<u8>>,
}

/// What a settlement did: the payment to the maker, the release of the vault
/// to the taker, and the closing of the offer.
#[derive(Debug, PartialEq, Eq)]
pub struct Settlement {
    pub payment: Transfer,
    pub release: VaultRelease,
    pub retired: CloseAccount,
}

impl Transfer {
    /// The token accounts after the transfer. The receiving account is
    /// opened for `recipient` if it was absent.
    pub open spec fn applied(self, tokens: Map<Address, TokenAccount>, recipient: Address) -> Map<
        Address,
        TokenAccount,
    > {
        credited(debited(tokens, self.from, self.amount), self.to, recipient, self.mint, self.amount)
    }
}

impl CloseAccount {
    /// The token accounts after the account has been closed.
    pub open spec fn applied(self, tokens: Map<Address, TokenAccount>) -> Map<Address, TokenAccount> {
        tokens.remove(self.account)
    }
}

} // verus!
