//! What the two operations guarantee, whatever the ledger, the request and
//! the addresses that its roles derive. Each guarantee is stated of the
//! addresses `derived` that an operation is given; it holds in particular of
//! those that `make_offer` and `take_offer` derive themselves.

use crate::address::{offer_address_of, Address};
use crate::error::SwapError;
use crate::ledger::{Ledger, LedgerState};
use crate::make_offer::{MakeOffer, MakeOfferAddresses};
use crate::take_offer::{TakeOffer, TakeOfferAddresses};
use vstd::prelude::*;

verus! {

/// A made offer is funded and recorded. Once an offer has been made, its
/// vault exists, belongs to the offer's own address and holds exactly the
/// amount offered, which has left the maker's account; and the offer is
/// recorded with exactly the fields that the maker gave, and with that
/// vault.
pub proof fn made_offer_is_funded_and_recorded(
    state: LedgerState,
    context: MakeOffer,
    id: u64,
    token_a_offered_amt: u64,
    token_b_wanted: u64,
    derived: MakeOfferAddresses,
)
    requires
        context.rejection_given(state, token_a_offered_amt, token_b_wanted, derived) is None,
    ensures
        ({
            let after = context.outcome_given(
                state,
                id,
                token_a_offered_amt,
                token_b_wanted,
                derived,
            );
            let offer = after.offers[context.offer];
            &&& after.tokens.dom().contains(context.vault)
            &&& after.tokens[context.vault].amount == token_a_offered_amt
            &&& after.tokens[context.vault].owner == context.offer
            &&& after.tokens[context.vault].mint == context.token_mint_a
            &&& after.balance(context.maker_token_account_a) + token_a_offered_amt
                == state.balance(context.maker_token_account_a)
            &&& after.offers.dom().contains(context.offer)
            &&& after.vaults[context.offer] == context.vault
            &&& offer.id == id
            &&& offer.maker == context.maker
            &&& offer.token_mint_a == context.token_mint_a
            &&& offer.token_mint_b == context.token_mint_b
            &&& offer.amt_token_a_offered == token_a_offered_amt
            &&& offer.amt_token_b_wanted == token_b_wanted
            &&& offer.bump == derived.bump()
        }),
{
}

/// An offer that cannot be funded is not recorded. Where the maker's account
/// does not hold the amount offered, the offer is rejected, and no offer is
/// recorded or dropped at whatever address, nor does any account change.
pub proof fn unfunded_offer_is_not_recorded(
    state: LedgerState,
    context: MakeOffer,
    id: u64,
    token_a_offered_amt: u64,
    token_b_wanted: u64,
    derived: MakeOfferAddresses,
)
    requires
        !context.funded(state, token_a_offered_amt),
    ensures
        context.rejection_given(state, token_a_offered_amt, token_b_wanted, derived) is Some,
        context.outcome_given(state, id, token_a_offered_amt, token_b_wanted, derived).offers
            == state.offers,
        context.outcome_given(state, id, token_a_offered_amt, token_b_wanted, derived).tokens
            == state.tokens,
{
}

/// Settlement is whole, for the taker. Once an offer has been taken, the
/// taker's account of the asset offered holds exactly the amount offered
/// more than before, and neither the offer nor its vault exists.
pub proof fn taken_offer_pays_the_taker(
    ledger: Ledger,
    context: TakeOffer,
    derived: TakeOfferAddresses,
)
    requires
        ledger.wf(),
        context.rejection_given(ledger@, derived) is None,
    ensures
        ({
            let after = context.outcome_given(ledger@, derived);
            let offer = ledger@.offers[context.offer];
            &&& after.tokens.dom().contains(context.taker_token_account_a)
            &&& after.balance(context.taker_token_account_a) == ledger@.balance(
                context.taker_token_account_a,
            ) + offer.amt_token_a_offered
            &&& !after.offers.dom().contains(context.offer)
            &&& !after.vaults.dom().contains(context.offer)
            &&& !after.tokens.dom().contains(context.vault)
        }),
{
    context.lemma_vault_apart(ledger@, derived);
    if ledger@.tokens.dom().contains(context.taker_token_account_a) {
        ledger.lemma_balances_bounded(context.taker_token_account_a, context.vault);
    }
}

/// Settlement is whole, for the maker. Once an offer has been taken by a
/// taker who pays from another account than the one in which the maker is
/// paid, the maker's account of the asset wanted holds exactly the amount
/// wanted more than before, and the taker's account exactly that much less.
pub proof fn taken_offer_pays_the_maker(
    ledger: Ledger,
    context: TakeOffer,
    derived: TakeOfferAddresses,
)
    requires
        ledger.wf(),
        context.rejection_given(ledger@, derived) is None,
        context.taker_token_account_b != context.maker_token_account_b,
    ensures
        ({
            let after = context.outcome_given(ledger@, derived);
            let offer = ledger@.offers[context.offer];
            &&& after.tokens.dom().contains(context.maker_token_account_b)
            &&& after.balance(context.maker_token_account_b) == ledger@.balance(
                context.maker_token_account_b,
            ) + offer.amt_token_b_wanted
            &&& after.balance(context.taker_token_account_b) + offer.amt_token_b_wanted
                == ledger@.balance(context.taker_token_account_b)
        }),
{
    context.lemma_vault_apart(ledger@, derived);
    if ledger@.tokens.dom().contains(context.maker_token_account_b) {
        ledger.lemma_balances_bounded(context.maker_token_account_b, context.taker_token_account_b);
    }
}

/// A taker who is paid in the account from which they pay ends with that
/// account as it was.
pub proof fn taken_offer_of_one_account_keeps_its_balance(
    ledger: Ledger,
    context: TakeOffer,
    derived: TakeOfferAddresses,
)
    requires
        ledger.wf(),
        context.rejection_given(ledger@, derived) is None,
        context.taker_token_account_b == context.maker_token_account_b,
    ensures
        context.outcome_given(ledger@, derived).balance(context.maker_token_account_b)
            == ledger@.balance(context.maker_token_account_b),
{
    context.lemma_vault_apart(ledger@, derived);
}

/// An offer is settled once. After an offer has been taken, any further
/// attempt at the same offer is rejected because no offer is found, and
/// changes nothing.
pub proof fn taken_offer_cannot_be_taken_again(
    state: LedgerState,
    first: TakeOffer,
    first_derived: TakeOfferAddresses,
    second: TakeOffer,
    second_derived: TakeOfferAddresses,
)
    requires
        first.rejection_given(state, first_derived) is None,
        second.offer == first.offer,
    ensures
        second.rejection_given(first.outcome_given(state, first_derived), second_derived) == Some(
            SwapError::EntryNotFound,
        ),
        second.outcome_given(first.outcome_given(state, first_derived), second_derived)
            == first.outcome_given(state, first_derived),
{
}

/// A settlement that names another maker or another asset than the offer
/// records is rejected as a mismatch, and changes nothing.
pub proof fn mismatched_settlement_is_rejected(
    state: LedgerState,
    context: TakeOffer,
    derived: TakeOfferAddresses,
)
    requires
        state.offers.dom().contains(context.offer),
        context.maker != state.offers[context.offer].maker || context.token_mint_a
            != state.offers[context.offer].token_mint_a || context.token_mint_b
            != state.offers[context.offer].token_mint_b,
    ensures
        context.rejection_given(state, derived) == Some(SwapError::EntryMismatch),
        context.outcome_given(state, derived) == state,
{
}

/// A rejected offer leaves every account and every offer as it was.
pub proof fn rejected_offer_changes_nothing(
    state: LedgerState,
    context: MakeOffer,
    id: u64,
    token_a_offered_amt: u64,
    token_b_wanted: u64,
    derived: MakeOfferAddresses,
)
    requires
        context.rejection_given(state, token_a_offered_amt, token_b_wanted, derived) is Some,
    ensures
        context.outcome_given(state, id, token_a_offered_amt, token_b_wanted, derived) == state,
{
}

/// A rejected settlement leaves every account and every offer as it was.
pub proof fn rejected_settlement_changes_nothing(
    state: LedgerState,
    context: TakeOffer,
    derived: TakeOfferAddresses,
)
    requires
        context.rejection_given(state, derived) is Some,
    ensures
        context.outcome_given(state, derived) == state,
{
}

/// Funds leave an account on its owner's word. The funding of an offer is
/// authorized by the maker, who owns the account that it leaves and is not
/// the address of a recorded offer.
pub proof fn offer_is_funded_on_the_makers_word(
    state: LedgerState,
    context: MakeOffer,
    token_a_offered_amt: u64,
    token_b_wanted: u64,
    derived: MakeOfferAddresses,
)
    requires
        context.rejection_given(state, token_a_offered_amt, token_b_wanted, derived) is None,
    ensures
        ({
            let funding = context.funding(token_a_offered_amt);
            &&& funding.authority == context.maker
            &&& state.tokens[funding.from].owner == funding.authority
            &&& !state.offers.dom().contains(funding.authority)
        }),
{
}

/// Funds leave an account on its owner's word. In a settlement the payment
/// is authorized by the taker, who owns the account that it leaves and is
/// not the address of a recorded offer. The release and the closing of the
/// vault are authorized by the owner of the vault, which is the offer's own
/// address: the one that `derived` gives for the offer's maker, id and bump
/// seed.
pub proof fn settlement_moves_funds_on_their_owners_word(
    state: LedgerState,
    context: TakeOffer,
    derived: TakeOfferAddresses,
)
    requires
        state.consistent(),
        context.rejection_given(state, derived) is None,
    ensures
        ({
            let offer = state.offers[context.offer];
            let payment = context.payment(offer);
            let release = context.release(state.tokens[context.vault]);
            &&& payment.authority == context.taker
            &&& state.tokens[payment.from].owner == payment.authority
            &&& !state.offers.dom().contains(payment.authority)
            &&& release.authority == context.offer
            &&& state.tokens[release.from].owner == release.authority
            &&& context.vault_closing().authority == state.tokens[context.vault].owner
            &&& derived.offer == Some(release.authority)
        }),
{
    context.lemma_vault_apart(state, derived);
}

/// An offer that has been made can be taken. Let an offer be made and sit
/// at the address that its maker, id and bump seed derive, as every offer
/// that `make_offer` makes does. Then a settlement that names the offer, its
/// vault, its maker and its two assets, and for each party the account
/// derived for it, is not rejected, provided that neither party is the
/// address of a recorded offer, that the two accounts that may have to be
/// opened are not one, and that the taker holds what the offer wants.
pub proof fn made_offer_can_be_taken(
    state: LedgerState,
    making: MakeOffer,
    id: u64,
    token_a_offered_amt: u64,
    token_b_wanted: u64,
    taking: TakeOffer,
)
    requires
        making.rejection(state, id, token_a_offered_amt, token_b_wanted) is None,
        offer_address_of(
            state.program_id,
            making.maker,
            id,
            making.addresses(state, id).bump(),
        ) == Some(making.offer),
        taking.offer == making.offer,
        taking.vault == making.vault,
        taking.maker == making.maker,
        taking.token_mint_a == making.token_mint_a,
        taking.token_mint_b == making.token_mint_b,
        ({
            let made = making.outcome(state, id, token_a_offered_amt, token_b_wanted);
            &&& !made.offers.dom().contains(taking.taker)
            &&& !made.offers.dom().contains(taking.maker)
            &&& made.is_slot(taking.taker_token_account_a, taking.taker, taking.token_mint_a)
            &&& made.is_slot(taking.taker_token_account_b, taking.taker, taking.token_mint_b)
            &&& made.is_slot(taking.maker_token_account_b, taking.maker, taking.token_mint_b)
            &&& taking.taker_token_account_a != taking.maker_token_account_b
            &&& made.balance(taking.taker_token_account_b) >= token_b_wanted
        }),
    ensures
        taking.rejection(making.outcome(state, id, token_a_offered_amt, token_b_wanted)) is None,
{
}

/// What is in circulation bounds what is held. An account holds no more than
/// is in circulation of its asset, and so do two accounts of one asset
/// together.
pub proof fn accounts_hold_no_more_than_is_in_circulation(
    ledger: Ledger,
    first: Address,
    second: Address,
)
    requires
        ledger.wf(),
        ledger@.tokens.dom().contains(first),
        ledger@.tokens.dom().contains(second),
        first != second,
        ledger@.tokens[first].mint == ledger@.tokens[second].mint,
    ensures
        ledger@.tokens[first].amount <= ledger.supply(ledger@.tokens[first].mint),
        ledger@.tokens[first].amount + ledger@.tokens[second].amount <= ledger.supply(
            ledger@.tokens[first].mint,
        ),
        ledger.supply(ledger@.tokens[first].mint) <= u64::MAX,
{
    ledger.lemma_balance_bounded(first);
    ledger.lemma_balances_bounded(first, second);
    ledger.lemma_supply_bounded(ledger@.tokens[first].mint);
}

} // verus!
