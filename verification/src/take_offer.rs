//! The settlement of an offer: what the taker names, what is checked of it,
//! and the instructions that carry the settlement out.

use crate::address::{
    associated_address_of, associated_token_address, is_named, offer_address, offer_address_of,
    offer_seeds, offer_signer_seeds, Address,
};
use crate::error::SwapError;
use crate::instruction::{CloseAccount, Transfer, VaultRelease};
use crate::ledger::{Ledger, LedgerState, TokenAccount};
use crate::offer::Offer;
use vstd::prelude::*;

verus! {

/// The accounts that a taker names to settle an offer. Whoever hands them in
/// vouches that the taker has authorized the settlement.
#[derive(Clone, Copy, Debug, PartialEq, Eq)]
pub struct TakeOffer {
    /// The party that settles the offer and authorizes the payment.
    pub taker: Address,
    /// The party that made the offer.
    pub maker: Address,
    /// The asset offered.
    pub token_mint_a: Address,
    /// The asset wanted.
    pub token_mint_b: Address,
    /// Where the taker receives the offered asset; opened if absent.
    pub taker_token_account_a: Address,
    /// From where the taker pays the wanted asset.
    pub taker_token_account_b: Address,
    /// Where the maker receives the wanted asset; opened if absent.
    pub maker_token_account_b: Address,
    /// The address of the offer.
    pub offer: Address,
    /// The address of the offer's vault.
    pub vault: Address,
}

/// The addresses derived for the roles of a settlement; `None` where none
/// can be derived.
#[derive(Clone, Copy, Debug, PartialEq, Eq)]
pub struct TakeOfferAddresses {
    /// Derived from the maker, the offer's id and its bump seed.
    pub offer: Option<Address>,
    /// Derived from the offer's address and the asset offered.
    pub vault: Option<Address>,
    /// Derived from the taker and the asset offered.
    pub taker_token_account_a: Option<Address>,
    /// Derived from the taker and the asset wanted.
    pub taker_token_account_b: Option<Address>,
    /// Derived from the maker and the asset wanted.
    pub maker_token_account_b: Option<Address>,
}

impl TakeOffer {
    /// The maker and the two assets named are those that `offer` records.
    pub open spec fn agrees_with(self, offer: Offer) -> bool {
        &&& offer.maker == self.maker
        &&& offer.token_mint_a == self.token_mint_a
        &&& offer.token_mint_b == self.token_mint_b
    }

    /// The addresses that the roles of the settlement derive, for an offer
    /// with the id `id` and the bump seed `bump`.
    pub open spec fn derived(self, program_id: Address, token_program: Address, id: u64, bump: u8) -> TakeOfferAddresses {
        TakeOfferAddresses {
            offer: offer_address_of(program_id, self.maker, id, bump),
            vault: associated_address_of(self.offer, self.token_mint_a, token_program),
            taker_token_account_a: associated_address_of(
                self.taker,
                self.token_mint_a,
                token_program,
            ),
            taker_token_account_b: associated_address_of(
                self.taker,
                self.token_mint_b,
                token_program,
            ),
            maker_token_account_b: associated_address_of(
                self.maker,
                self.token_mint_b,
                token_program,
            ),
        }
    }

    /// The addresses that the roles of the settlement derive in `state`.
    pub open spec fn addresses(self, state: LedgerState) -> TakeOfferAddresses {
        self.derived(
            state.program_id,
            state.token_program,
            state.offers[self.offer].id,
            state.offers[self.offer].bump,
        )
    }

    /// Every address named is the one that `derived` gives for its role. The
    /// vault named is the one recorded for the offer. Each party's account,
    /// where it is open, is that party's in the asset of its role. Neither
    /// party is itself the address of a recorded offer, and the two accounts
    /// that may have to be opened are not one account.
    pub open spec fn in_place(self, state: LedgerState, derived: TakeOfferAddresses) -> bool {
        &&& derived.offer == Some(self.offer)
        &&& !state.offers.dom().contains(self.taker)
        &&& !state.offers.dom().contains(self.maker)
        &&& derived.vault == Some(self.vault)
        &&& state.vaults[self.offer] == self.vault
        &&& state.fits(
            self.taker_token_account_a,
            derived.taker_token_account_a,
            self.taker,
            self.token_mint_a,
        )
        &&& state.fits(
            self.taker_token_account_b,
            derived.taker_token_account_b,
            self.taker,
            self.token_mint_b,
        )
        &&& state.fits(
            self.maker_token_account_b,
            derived.maker_token_account_b,
            self.maker,
            self.token_mint_b,
        )
        &&& self.taker_token_account_a != self.maker_token_account_b
    }

    /// The taker's account holds what the offer wants.
    pub open spec fn payment_funded(self, state: LedgerState) -> bool {
        &&& state.tokens.dom().contains(self.taker_token_account_b)
        &&& state.tokens[self.taker_token_account_b].amount
            >= state.offers[self.offer].amt_token_b_wanted
    }

    /// Why the settlement is rejected in `state`, where the roles derive the
    /// addresses `derived`; `None` where it goes ahead. The conditions are tried
    /// in this order, and the first that fails decides.
    pub open spec fn rejection_given(self, state: LedgerState, derived: TakeOfferAddresses) -> Option<
        SwapError,
    > {
        if !state.offers.dom().contains(self.offer) {
            Some(SwapError::EntryNotFound)
        } else if !self.agrees_with(state.offers[self.offer]) {
            Some(SwapError::EntryMismatch)
        } else if !self.in_place(state, derived) {
            Some(SwapError::DerivationMismatch)
        } else if !self.payment_funded(state) {
            Some(SwapError::InsufficientBalance)
        } else {
            None
        }
    }

    /// Why the settlement is rejected in `state`; `None` where it goes ahead.
    pub open spec fn rejection(self, state: LedgerState) -> Option<SwapError> {
        self.rejection_given(state, self.addresses(state))
    }

    /// The payment: what `offer` wants, from the taker to the maker, on the
    /// taker's word.
    pub open spec fn payment(self, offer: Offer) -> Transfer {
        Transfer {
            from: self.taker_token_account_b,
            to: self.maker_token_account_b,
            mint: self.token_mint_b,
            authority: self.taker,
            amount: offer.amt_token_b_wanted,
        }
    }

    /// The release: all that `vault` holds, to the taker, on the word of the
    /// offer's own address.
    pub open spec fn release(self, vault: TokenAccount) -> Transfer {
        Transfer {
            from: self.vault,
            to: self.taker_token_account_a,
            mint: self.token_mint_a,
            authority: self.offer,
            amount: vault.amount,
        }
    }

    /// The closing of the vault, whose deposit goes to the taker.
    pub open spec fn vault_closing(self) -> CloseAccount {
        CloseAccount { account: self.vault, destination: self.taker, authority: self.offer }
    }

    /// The closing of the offer by the program, whose deposit goes to the
    /// maker.
    pub open spec fn offer_closing(self, state: LedgerState) -> CloseAccount {
        CloseAccount { account: self.offer, destination: self.maker, authority: state.program_id }
    }

    /// `state` after the settlement: the payment, then the release, then the
    /// closing of the vault and of the offer.
    pub open spec fn effect(self, state: LedgerState) -> LedgerState {
        let paid = self.payment(state.offers[self.offer]).applied(state.tokens, self.maker);
        let released = self.release(state.tokens[self.vault]).applied(paid, self.taker);
        state.with_tokens(self.vault_closing().applied(released)).retiring(self.offer)
    }

    /// `state` after the attempt, where the roles derive the addresses
    /// `derived`: settled where nothing speaks against it, unchanged where it
    /// is rejected.
    pub open spec fn outcome_given(self, state: LedgerState, derived: TakeOfferAddresses) -> LedgerState {
        if self.rejection_given(state, derived) is None {
            self.effect(state)
        } else {
            state
        }
    }

    /// `state` after the attempt.
    pub open spec fn outcome(self, state: LedgerState) -> LedgerState {
        self.outcome_given(state, self.addresses(state))
    }

    /// A settlement that is not rejected finds the vault funded with exactly
    /// what was offered, and apart from the accounts of the two parties.
    pub proof fn lemma_vault_apart(self, state: LedgerState, derived: TakeOfferAddresses)
        requires
            state.consistent(),
            self.rejection_given(state, derived) is None,
        ensures
            state.holds_vault(self.offer, self.vault),
            self.vault != self.taker_token_account_a,
            self.vault != self.taker_token_account_b,
            self.vault != self.maker_token_account_b,
            self.taker_token_account_a != self.taker_token_account_b,
            self.token_mint_a != self.token_mint_b,
    {
        assert(state.holds_vault(self.offer, state.vaults[self.offer]));
    }

    /// A settlement that is not rejected leaves a consistent ledger
    /// consistent.
    pub proof fn lemma_effect_consistent(self, state: LedgerState, derived: TakeOfferAddresses)
        requires
            state.consistent(),
            self.rejection_given(state, derived) is None,
        ensures
            self.effect(state).consistent(),
    {
        self.lemma_vault_apart(state, derived);
        let after = self.effect(state);
        assert forall|o: Address| #[trigger] after.offers.dom().contains(o) implies after.holds_vault(
            o,
            after.vaults[o],
        ) by {
            assert(state.holds_vault(o, state.vaults[o]));
        }
    }

    /// Derives the addresses of the roles of the settlement, for an offer
    /// with the id `id` and the bump seed `bump`.
    pub fn derive(&self, program_id: &Address, token_program: &Address, id: u64, bump: u8) -> (derived:
        TakeOfferAddresses)
        ensures
            derived == self.derived(*program_id, *token_program, id, bump),
    {
        TakeOfferAddresses {
            offer: offer_address(program_id, &self.maker, id, bump),
            vault: associated_token_address(&self.offer, &self.token_mint_a, token_program),
            taker_token_account_a: associated_token_address(
                &self.taker,
                &self.token_mint_a,
                token_program,
            ),
            taker_token_account_b: associated_token_address(
                &self.taker,
                &self.token_mint_b,
                token_program,
            ),
            maker_token_account_b: associated_token_address(
                &self.maker,
                &self.token_mint_b,
                token_program,
            ),
        }
    }

    /// Decides on the settlement, given the addresses `derived` for its
    /// roles: gives the offer and its vault as recorded where nothing speaks
    /// against it, and the reason for which it is rejected where something
    /// does.
    pub fn check(&self, ledger: &Ledger, derived: &TakeOfferAddresses) -> (checked: Result<
        (Offer, TokenAccount),
        SwapError,
    >)
        requires
            ledger.wf(),
        ensures
            match checked {
                Ok((offer, vault)) => {
                    &&& self.rejection_given(ledger@, *derived) is None
                    &&& offer == ledger@.offers[self.offer]
                    &&& vault == ledger@.tokens[self.vault]
                },
                Err(reason) => self.rejection_given(ledger@, *derived) == Some(reason),
            },
    {
        let offer = match ledger.offer(&self.offer) {
            Some(offer) => offer,
            None => {
                return Err(SwapError::EntryNotFound);
            },
        };
        if !(offer.maker.same_as(&self.maker) && offer.token_mint_a.same_as(&self.token_mint_a)
            && offer.token_mint_b.same_as(&self.token_mint_b)) {
            return Err(SwapError::EntryMismatch);
        }
        if !is_named(&derived.offer, &self.offer) || !is_named(&derived.vault, &self.vault) {
            return Err(SwapError::DerivationMismatch);
        }
        if ledger.offer(&self.taker).is_some() || ledger.offer(&self.maker).is_some() {
            return Err(SwapError::DerivationMismatch);
        }
        if !is_named(&ledger.vault_of(&self.offer), &self.vault) {
            return Err(SwapError::DerivationMismatch);
        }
        if !ledger.fits(
            &self.taker_token_account_a,
            &derived.taker_token_account_a,
            &self.taker,
            &self.token_mint_a,
        ) || !ledger.fits(
            &self.taker_token_account_b,
            &derived.taker_token_account_b,
            &self.taker,
            &self.token_mint_b,
        ) || !ledger.fits(
            &self.maker_token_account_b,
            &derived.maker_token_account_b,
            &self.maker,
            &self.token_mint_b,
        ) {
            return Err(SwapError::DerivationMismatch);
        }
        if self.taker_token_account_a.same_as(&self.maker_token_account_b) {
            return Err(SwapError::DerivationMismatch);
        }
        let funded = match ledger.token_account(&self.taker_token_account_b) {
            Some(source) => source.amount >= offer.amt_token_b_wanted,
            None => false,
        };
        if !funded {
            return Err(SwapError::InsufficientBalance);
        }
        proof {
            self.lemma_vault_apart(ledger@, *derived);
        }
        let vault = ledger.token_account(&self.vault);
        Ok((offer, vault.unwrap()))
    }
}

/// The payment that settles `offer`: the amount that it wants, of the asset
/// that it wants, from the taker's account to the maker's, on the taker's
/// word.
pub fn send_tokens_to_maker(context: &TakeOffer, offer: &Offer) -> (payment: Transfer)
    ensures
        payment == context.payment(*offer),
{
    Transfer {
        from: context.taker_token_account_b,
        to: context.maker_token_account_b,
        mint: context.token_mint_b,
        authority: context.taker,
        amount: offer.amt_token_b_wanted,
    }
}

/// The release of the vault of `offer`: all that `vault` holds goes to the
/// taker, and the vault is closed with its deposit going to the taker. Both
/// are done on the word of the offer's own address, for which the seeds of
/// that address sign.
pub fn withdraw_and_close_vault(context: &TakeOffer, offer: &Offer, vault: &TokenAccount) -> (release:
    VaultRelease)
    ensures
        release.transfer == context.release(*vault),
        release.close == context.vault_closing(),
        release.signer_seeds.deep_view() == offer_seeds(context.maker@, offer.id, offer.bump),
{
    let signer_seeds = offer_signer_seeds(&context.maker, offer.id, offer.bump);
    let transfer = Transfer {
        from: context.vault,
        to: context.taker_token_account_a,
        mint: context.token_mint_a,
        authority: context.offer,
        amount: vault.amount,
    };
    let close = CloseAccount {
        account: context.vault,
        destination: context.taker,
        authority: context.offer,
    };
    VaultRelease { transfer, close, signer_seeds }
}

} // verus!
