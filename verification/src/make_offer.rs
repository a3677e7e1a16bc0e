//! The making of an offer: what the maker names, what is checked of it, and
//! the instruction and the record that carry it out.

use crate::address::{
    associated_address_of, associated_token_address, find_offer_address, is_named,
    offer_address_found, offer_address_of, Address,
};
use crate::error::SwapError;
use crate::instruction::Transfer;
use crate::ledger::{Ledger, LedgerState};
use crate::offer::Offer;
use vstd::prelude::*;

verus! {

/// The accounts that a maker names to make an offer. Whoever hands them in
/// vouches that the maker has authorized the offer.
#[derive(Clone, Copy, Debug, PartialEq, Eq)]
pub struct MakeOffer {
    /// The party that makes the offer and authorizes the funding.
    pub maker: Address,
    /// The asset offered.
    pub token_mint_a: Address,
    /// The asset wanted.
    pub token_mint_b: Address,
    /// From where the maker funds the vault.
    pub maker_token_account_a: Address,
    /// The address at which the offer is to be recorded.
    pub offer: Address,
    /// The address at which the offer's vault is to be opened.
    pub vault: Address,
}

/// The addresses derived for the roles of an offer that is being made;
/// `None` where none can be derived.
#[derive(Clone, Copy, Debug, PartialEq, Eq)]
pub struct MakeOfferAddresses {
    /// Found for the maker and the offer's id, with the bump seed found.
    pub offer: Option<(Address, u8)>,
    /// Derived from the offer's address and the asset offered.
    pub vault: Option<Address>,
    /// Derived from the maker and the asset offered.
    pub maker_token_account_a: Option<Address>,
}

impl MakeOfferAddresses {
    /// The bump seed found with the offer's address; zero where none was.
    pub open spec fn bump(self) -> u8 {
        match self.offer {
            Some((_, bump)) => bump,
            None => 0,
        }
    }
}

impl MakeOffer {
    /// The addresses that the roles of the offer `id` derive.
    pub open spec fn derived(self, program_id: Address, token_program: Address, id: u64) -> MakeOfferAddresses {
        MakeOfferAddresses {
            offer: offer_address_found(program_id, self.maker, id),
            vault: associated_address_of(self.offer, self.token_mint_a, token_program),
            maker_token_account_a: associated_address_of(
                self.maker,
                self.token_mint_a,
                token_program,
            ),
        }
    }

    /// The addresses that the roles of the offer `id` derive in `state`.
    pub open spec fn addresses(self, state: LedgerState, id: u64) -> MakeOfferAddresses {
        self.derived(state.program_id, state.token_program, id)
    }

    /// The address named for the offer is the one that `derived` gives.
    pub open spec fn offer_in_place(self, derived: MakeOfferAddresses) -> bool {
        match derived.offer {
            Some((address, _)) => address == self.offer,
            None => false,
        }
    }

    /// The maker is not itself the address of a recorded offer; the vault's
    /// address is the one that `derived` gives, and nothing is filed there
    /// yet; the maker's account is the one that `derived` gives and, where
    /// it is open, the maker's in the asset offered.
    pub open spec fn accounts_in_place(self, state: LedgerState, derived: MakeOfferAddresses) -> bool {
        &&& !state.offers.dom().contains(self.maker)
        &&& derived.vault == Some(self.vault)
        &&& !state.tokens.dom().contains(self.vault)
        &&& state.fits(
            self.maker_token_account_a,
            derived.maker_token_account_a,
            self.maker,
            self.token_mint_a,
        )
    }

    /// The maker's account holds `amount`.
    pub open spec fn funded(self, state: LedgerState, amount: u64) -> bool {
        &&& state.tokens.dom().contains(self.maker_token_account_a)
        &&& state.tokens[self.maker_token_account_a].amount >= amount
    }

    /// Why the request is rejected whatever the ledger holds: an amount of
    /// zero, or one asset named twice. `None` where it is in order.
    pub open spec fn request_rejection(self, token_a_offered_amt: u64, token_b_wanted: u64) -> Option<
        SwapError,
    > {
        if token_a_offered_amt == 0 || token_b_wanted == 0 {
            Some(SwapError::InvalidAmount)
        } else if self.token_mint_a == self.token_mint_b {
            Some(SwapError::EntryMismatch)
        } else {
            None
        }
    }

    /// Why the offer is rejected in `state`, where the roles derive the
    /// addresses `derived`; `None` where it is made. The conditions are tried in
    /// this order, and the first that fails decides.
    pub open spec fn rejection_given(
        self,
        state: LedgerState,
        token_a_offered_amt: u64,
        token_b_wanted: u64,
        derived: MakeOfferAddresses,
    ) -> Option<SwapError> {
        if self.request_rejection(token_a_offered_amt, token_b_wanted) is Some {
            self.request_rejection(token_a_offered_amt, token_b_wanted)
        } else if !self.offer_in_place(derived) {
            Some(SwapError::DerivationMismatch)
        } else if state.offers.dom().contains(self.offer) {
            Some(SwapError::EntryMismatch)
        } else if !self.accounts_in_place(state, derived) {
            Some(SwapError::DerivationMismatch)
        } else if !self.funded(state, token_a_offered_amt) {
            Some(SwapError::InsufficientBalance)
        } else {
            None
        }
    }

    /// Why the offer `id` is rejected in `state`; `None` where it is made.
    pub open spec fn rejection(
        self,
        state: LedgerState,
        id: u64,
        token_a_offered_amt: u64,
        token_b_wanted: u64,
    ) -> Option<SwapError> {
        self.rejection_given(state, token_a_offered_amt, token_b_wanted, self.addresses(state, id))
    }

    /// The funding: `amount` of the asset offered, from the maker's account
    /// to the vault, on the maker's word.
    pub open spec fn funding(self, amount: u64) -> Transfer {
        Transfer {
            from: self.maker_token_account_a,
            to: self.vault,
            mint: self.token_mint_a,
            authority: self.maker,
            amount,
        }
    }

    /// The record of the offer.
    pub open spec fn record(self, id: u64, token_a_offered_amt: u64, token_b_wanted: u64, bump: u8) -> Offer {
        Offer {
            id,
            maker: self.maker,
            token_mint_a: self.token_mint_a,
            token_mint_b: self.token_mint_b,
            amt_token_a_offered: token_a_offered_amt,
            amt_token_b_wanted: token_b_wanted,
            bump,
        }
    }

    /// `state` after the offer has been made with the bump seed `bump`: the
    /// vault is opened for the offer's own address and funded, then the
    /// offer is recorded with its vault.
    pub open spec fn effect(
        self,
        state: LedgerState,
        id: u64,
        token_a_offered_amt: u64,
        token_b_wanted: u64,
        bump: u8,
    ) -> LedgerState {
        state.with_tokens(
            self.funding(token_a_offered_amt).applied(state.tokens, self.offer),
        ).recording(
            self.offer,
            self.record(id, token_a_offered_amt, token_b_wanted, bump),
            self.vault,
        )
    }

    /// `state` after the attempt, where the roles derive the addresses
    /// `derived`: with the offer where nothing speaks against it, unchanged
    /// where it is rejected.
    pub open spec fn outcome_given(
        self,
        state: LedgerState,
        id: u64,
        token_a_offered_amt: u64,
        token_b_wanted: u64,
        derived: MakeOfferAddresses,
    ) -> LedgerState {
        if self.rejection_given(state, token_a_offered_amt, token_b_wanted, derived) is None {
            self.effect(state, id, token_a_offered_amt, token_b_wanted, derived.bump())
        } else {
            state
        }
    }

    /// `state` after the attempt.
    pub open spec fn outcome(
        self,
        state: LedgerState,
        id: u64,
        token_a_offered_amt: u64,
        token_b_wanted: u64,
    ) -> LedgerState {
        self.outcome_given(
            state,
            id,
            token_a_offered_amt,
            token_b_wanted,
            self.addresses(state, id),
        )
    }

    /// An offer that is not rejected leaves a consistent ledger consistent.
    pub proof fn lemma_effect_consistent(
        self,
        state: LedgerState,
        id: u64,
        token_a_offered_amt: u64,
        token_b_wanted: u64,
        derived: MakeOfferAddresses,
    )
        requires
            state.consistent(),
            self.rejection_given(state, token_a_offered_amt, token_b_wanted, derived) is None,
        ensures
            self.effect(state, id, token_a_offered_amt, token_b_wanted, derived.bump()).consistent(),
    {
        let after = self.effect(state, id, token_a_offered_amt, token_b_wanted, derived.bump());
        assert forall|o: Address| #[trigger] after.offers.dom().contains(o) implies after.holds_vault(
            o,
            after.vaults[o],
        ) by {
            if o != self.offer {
                assert(state.holds_vault(o, state.vaults[o]));
            }
        }
    }

    /// Decides on the request alone: rejects an amount of zero and an asset
    /// offered for itself.
    pub fn check_request(&self, token_a_offered_amt: u64, token_b_wanted: u64) -> (checked: Result<
        (),
        SwapError,
    >)
        ensures
            match checked {
                Ok(()) => self.request_rejection(token_a_offered_amt, token_b_wanted) is None,
                Err(reason) => self.request_rejection(token_a_offered_amt, token_b_wanted) == Some(
                    reason,
                ),
            },
    {
        if token_a_offered_amt == 0 || token_b_wanted == 0 {
            return Err(SwapError::InvalidAmount);
        }
        if self.token_mint_a.same_as(&self.token_mint_b) {
            return Err(SwapError::EntryMismatch);
        }
        Ok(())
    }

    /// Derives the addresses of the roles of the offer `id`. The offer's
    /// address, where one is found, is the one that the bump seed found
    /// derives.
    pub fn derive(&self, program_id: &Address, token_program: &Address, id: u64) -> (derived:
        MakeOfferAddresses)
        ensures
            derived == self.derived(*program_id, *token_program, id),
            match derived.offer {
                Some((address, bump)) => offer_address_of(*program_id, self.maker, id, bump)
                    == Some(address),
                None => true,
            },
    {
        MakeOfferAddresses {
            offer: find_offer_address(program_id, &self.maker, id),
            vault: associated_token_address(&self.offer, &self.token_mint_a, token_program),
            maker_token_account_a: associated_token_address(
                &self.maker,
                &self.token_mint_a,
                token_program,
            ),
        }
    }

    /// Decides on the offer, given the addresses `derived` for its roles:
    /// gives the bump seed of the offer's address where nothing speaks
    /// against the offer, and the reason for which it is rejected where
    /// something does.
    pub fn check(
        &self,
        ledger: &Ledger,
        token_a_offered_amt: u64,
        token_b_wanted: u64,
        derived: &MakeOfferAddresses,
    ) -> (checked: Result<u8, SwapError>)
        requires
            ledger.wf(),
        ensures
            match checked {
                Ok(bump) => {
                    &&& self.rejection_given(
                        ledger@,
                        token_a_offered_amt,
                        token_b_wanted,
                        *derived,
                    ) is None
                    &&& bump == derived.bump()
                },
                Err(reason) => self.rejection_given(
                    ledger@,
                    token_a_offered_amt,
                    token_b_wanted,
                    *derived,
                ) == Some(reason),
            },
    {
        match self.check_request(token_a_offered_amt, token_b_wanted) {
            Ok(()) => {},
            Err(reason) => {
                return Err(reason);
            },
        }
        let bump = match derived.offer {
            Some((address, bump)) => {
                if !address.same_as(&self.offer) {
                    return Err(SwapError::DerivationMismatch);
                }
                bump
            },
            None => {
                return Err(SwapError::DerivationMismatch);
            },
        };
        if ledger.offer(&self.offer).is_some() {
            return Err(SwapError::EntryMismatch);
        }
        if ledger.offer(&self.maker).is_some() {
            return Err(SwapError::DerivationMismatch);
        }
        if !is_named(&derived.vault, &self.vault) {
            return Err(SwapError::DerivationMismatch);
        }
        if ledger.token_account(&self.vault).is_some() {
            return Err(SwapError::DerivationMismatch);
        }
        if !ledger.fits(
            &self.maker_token_account_a,
            &derived.maker_token_account_a,
            &self.maker,
            &self.token_mint_a,
        ) {
            return Err(SwapError::DerivationMismatch);
        }
        let funded = match ledger.token_account(&self.maker_token_account_a) {
            Some(source) => source.amount >= token_a_offered_amt,
            None => false,
        };
        if !funded {
            return Err(SwapError::InsufficientBalance);
        }
        Ok(bump)
    }
}

/// The funding of the vault: `token_a_offered_amt` of the asset offered, from
/// the maker's account to the vault, on the maker's word.
pub fn send_offered_tokens_to_vault(context: &MakeOffer, token_a_offered_amt: u64) -> (funding:
    Transfer)
    ensures
        funding == context.funding(token_a_offered_amt),
{
    Transfer {
        from: context.maker_token_account_a,
        to: context.vault,
        mint: context.token_mint_a,
        authority: context.maker,
        amount: token_a_offered_amt,
    }
}

/// The record that is kept of the offer: the fields as the maker gave them,
/// and the bump seed with which the offer's address was derived.
pub fn save_offer(
    context: &MakeOffer,
    id: u64,
    token_a_offered_amt: u64,
    token_b_wanted: u64,
    bump: u8,
) -> (offer: Offer)
    ensures
        offer == context.record(id, token_a_offered_amt, token_b_wanted, bump),
{
    Offer {
        id,
        maker: context.maker,
        token_mint_a: context.token_mint_a,
        token_mint_b: context.token_mint_b,
        amt_token_a_offered: token_a_offered_amt,
        amt_token_b_wanted: token_b_wanted,
        bump,
    }
}

} // verus!
