//! The two operations of the escrow: making an offer and taking it.
//!
//! Each operation comes in two forms. `make_offer` and `take_offer` derive
//! the addresses of the roles that the request names and decide on them.
//! `make_offer_with` and `take_offer_with` take the derived addresses from
//! the caller, and say exactly what happens for every value of them.

use crate::address::{offer_address_of, offer_seeds, Address};
use crate::error::SwapError;
use crate::instruction::{CloseAccount, Settlement};
use crate::ledger::Ledger;
use crate::make_offer::{save_offer, send_offered_tokens_to_vault, MakeOffer, MakeOfferAddresses};
use crate::offer::Offer;
use crate::take_offer::{
    send_tokens_to_maker, withdraw_and_close_vault, TakeOffer, TakeOfferAddresses,
};
use vstd::prelude::*;

verus! {

/// Makes the offer `id` of the maker that `context` names, where the roles
/// of the offer derive the addresses `derived`: the vault is opened for the
/// offer's own address and receives `token_a_offered_amt` from the maker,
/// then the offer is recorded with the bump seed of its address. Where
/// anything speaks against the offer it is rejected before anything moves,
/// and the ledger stays as it was.
pub fn make_offer_with(
    ledger: &mut Ledger,
    context: &MakeOffer,
    id: u64,
    token_a_offered_amt: u64,
    token_b_wanted: u64,
    derived: &MakeOfferAddresses,
) -> (made: Result<Offer, SwapError>)
    requires
        old(ledger).wf(),
    ensures
        final(ledger).wf(),
        final(ledger)@ == context.outcome_given(
            old(ledger)@,
            id,
            token_a_offered_amt,
            token_b_wanted,
            *derived,
        ),
        forall|mint: Address| #[trigger] final(ledger).supply(mint) == old(ledger).supply(mint),
        match made {
            Ok(offer) => {
                &&& context.rejection_given(
                    old(ledger)@,
                    token_a_offered_amt,
                    token_b_wanted,
                    *derived,
                ) is None
                &&& offer == context.record(
                    id,
                    token_a_offered_amt,
                    token_b_wanted,
                    derived.bump(),
                )
            },
            Err(reason) => context.rejection_given(
                old(ledger)@,
                token_a_offered_amt,
                token_b_wanted,
                *derived,
            ) == Some(reason),
        },
{
    let ghost before = *ledger;
    let bump = match context.check(ledger, token_a_offered_amt, token_b_wanted, derived) {
        Ok(bump) => bump,
        Err(reason) => {
            return Err(reason);
        },
    };
    proof {
        context.lemma_effect_consistent(
            before@,
            id,
            token_a_offered_amt,
            token_b_wanted,
            *derived,
        );
        before.lemma_supply_bounded(context.token_mint_a);
    }
    let funding = send_offered_tokens_to_vault(context, token_a_offered_amt);
    ledger.debit(&funding.from, funding.amount);
    ledger.credit(&funding.to, &context.offer, &funding.mint, funding.amount);
    let offer = save_offer(context, id, token_a_offered_amt, token_b_wanted, bump);
    ledger.record(&context.offer, offer, &context.vault);
    Ok(offer)
}

/// Makes the offer `id` of the maker that `context` names: derives the
/// addresses of its roles and goes on as `make_offer_with` does. An offer
/// that is made sits at the address that its maker, id and bump seed derive.
pub fn make_offer(
    ledger: &mut Ledger,
    context: &MakeOffer,
    id: u64,
    token_a_offered_amt: u64,
    token_b_wanted: u64,
) -> (made: Result<Offer, SwapError>)
    requires
        old(ledger).wf(),
    ensures
        final(ledger).wf(),
        final(ledger)@ == context.outcome(old(ledger)@, id, token_a_offered_amt, token_b_wanted),
        forall|mint: Address| #[trigger] final(ledger).supply(mint) == old(ledger).supply(mint),
        match made {
            Ok(offer) => {
                &&& context.rejection(old(ledger)@, id, token_a_offered_amt, token_b_wanted) is None
                &&& offer == context.record(
                    id,
                    token_a_offered_amt,
                    token_b_wanted,
                    context.addresses(old(ledger)@, id).bump(),
                )
                &&& offer_address_of(old(ledger)@.program_id, context.maker, id, offer.bump)
                    == Some(context.offer)
            },
            Err(reason) => context.rejection(old(ledger)@, id, token_a_offered_amt, token_b_wanted)
                == Some(reason),
        },
{
    let program_id = ledger.program_id();
    let token_program = ledger.token_program();
    let derived = context.derive(&program_id, &token_program, id);
    make_offer_with(ledger, context, id, token_a_offered_amt, token_b_wanted, &derived)
}

/// Settles the offer that `context` names, where the roles of the settlement
/// derive the addresses `derived`: the taker pays the maker what the offer
/// wants, receives all that the vault holds, and the vault and the offer are
/// closed. Where anything speaks against the settlement it is rejected
/// before anything moves, and the ledger stays as it was.
pub fn take_offer_with(ledger: &mut Ledger, context: &TakeOffer, derived: &TakeOfferAddresses) -> (settled:
    Result<Settlement, SwapError>)
    requires
        old(ledger).wf(),
    ensures
        final(ledger).wf(),
        final(ledger)@ == context.outcome_given(old(ledger)@, *derived),
        forall|mint: Address| #[trigger] final(ledger).supply(mint) == old(ledger).supply(mint),
        match settled {
            Ok(settlement) => {
                let offer = old(ledger)@.offers[context.offer];
                &&& context.rejection_given(old(ledger)@, *derived) is None
                &&& settlement.payment == context.payment(offer)
                &&& settlement.release.transfer == context.release(
                    old(ledger)@.tokens[context.vault],
                )
                &&& settlement.release.close == context.vault_closing()
                &&& settlement.release.signer_seeds.deep_view() == offer_seeds(
                    context.maker@,
                    offer.id,
                    offer.bump,
                )
                &&& settlement.retired == context.offer_closing(old(ledger)@)
            },
            Err(reason) => context.rejection_given(old(ledger)@, *derived) == Some(reason),
        },
{
    let ghost before = *ledger;
    let (offer, vault) = match context.check(ledger, derived) {
        Ok(checked) => checked,
        Err(reason) => {
            return Err(reason);
        },
    };
    proof {
        context.lemma_vault_apart(before@, *derived);
        context.lemma_effect_consistent(before@, *derived);
        before.lemma_supply_bounded(context.token_mint_a);
        before.lemma_supply_bounded(context.token_mint_b);
    }
    let payment = send_tokens_to_maker(context, &offer);
    ledger.debit(&payment.from, payment.amount);
    ledger.credit(&payment.to, &context.maker, &payment.mint, payment.amount);
    let release = withdraw_and_close_vault(context, &offer, &vault);
    ledger.debit(&release.transfer.from, release.transfer.amount);
    ledger.credit(
        &release.transfer.to,
        &context.taker,
        &release.transfer.mint,
        release.transfer.amount,
    );
    ledger.close(&release.close.account);
    ledger.retire(&context.offer);
    let retired = CloseAccount {
        account: context.offer,
        destination: context.maker,
        authority: ledger.program_id(),
    };
    Ok(Settlement { payment, release, retired })
}

/// Settles the offer that `context` names: derives the addresses of the
/// roles of the settlement from the offer as recorded and goes on as
/// `take_offer_with` does.
pub fn take_offer(ledger: &mut Ledger, context: &TakeOffer) -> (settled: Result<
    Settlement,
    SwapError,
>)
    requires
        old(ledger).wf(),
    ensures
        final(ledger).wf(),
        final(ledger)@ == context.outcome(old(ledger)@),
        forall|mint: Address| #[trigger] final(ledger).supply(mint) == old(ledger).supply(mint),
        match settled {
            Ok(settlement) => {
                let offer = old(ledger)@.offers[context.offer];
                &&& context.rejection(old(ledger)@) is None
                &&& settlement.payment == context.payment(offer)
                &&& settlement.release.transfer == context.release(
                    old(ledger)@.tokens[context.vault],
                )
                &&& settlement.release.close == context.vault_closing()
                &&& settlement.release.signer_seeds.deep_view() == offer_seeds(
                    context.maker@,
                    offer.id,
                    offer.bump,
                )
                &&& settlement.retired == context.offer_closing(old(ledger)@)
            },
            Err(reason) => context.rejection(old(ledger)@) == Some(reason),
        },
{
    let offer = match ledger.offer(&context.offer) {
        Some(offer) => offer,
        None => {
            return Err(SwapError::EntryNotFound);
        },
    };
    let program_id = ledger.program_id();
    let token_program = ledger.token_program();
    let derived = context.derive(&program_id, &token_program, offer.id, offer.bump);
    take_offer_with(ledger, context, &derived)
}

} // verus!
