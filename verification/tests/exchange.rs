use swapdapp::address::{associated_token_address, find_offer_address, Address};
use swapdapp::error::SwapError;
use swapdapp::instruction::{CloseAccount, Transfer};
use swapdapp::ledger::{Ledger, TokenAccount};
use swapdapp::make_offer::MakeOffer;
use swapdapp::offer::Offer;
use swapdapp::swap::{make_offer, take_offer};
use swapdapp::take_offer::TakeOffer;

struct Market {
    ledger: Ledger,
    maker: Address,
    taker: Address,
    mint_a: Address,
    mint_b: Address,
    maker_a: Address,
    maker_b: Address,
    taker_a: Address,
    taker_b: Address,
}

fn program() -> Address {
    Address::new(anchor_lang::prelude::Pubkey::new_from_array([9u8; 32]).to_bytes())
}

fn token_program() -> Address {
    Address::new(anchor_spl::token::ID.to_bytes())
}

fn associated(owner: &Address, mint: &Address) -> Address {
    associated_token_address(owner, mint, &token_program()).expect("an address can be derived")
}

/// A ledger on which the maker holds `maker_units` of asset A and the taker
/// `taker_units` of asset B.
fn market(maker_units: u64, taker_units: u64) -> Market {
    let mut ledger = Ledger::new(program(), token_program());
    let maker = Address::new([1u8; 32]);
    let taker = Address::new([2u8; 32]);
    let mint_a = Address::new([3u8; 32]);
    let mint_b = Address::new([4u8; 32]);
    let maker_a = ledger.create_token_account(&maker, &mint_a).expect("opened");
    let taker_b = ledger.create_token_account(&taker, &mint_b).expect("opened");
    assert!(ledger.mint_to(&maker_a, maker_units));
    assert!(ledger.mint_to(&taker_b, taker_units));
    let maker_b = associated(&maker, &mint_b);
    let taker_a = associated(&taker, &mint_a);
    Market { ledger, maker, taker, mint_a, mint_b, maker_a, maker_b, taker_a, taker_b }
}

fn making(market: &Market, id: u64) -> MakeOffer {
    let (offer, _) = find_offer_address(&program(), &market.maker, id).expect("found");
    MakeOffer {
        maker: market.maker,
        token_mint_a: market.mint_a,
        token_mint_b: market.mint_b,
        maker_token_account_a: market.maker_a,
        offer,
        vault: associated(&offer, &market.mint_a),
    }
}

fn taking(market: &Market, id: u64) -> TakeOffer {
    let (offer, _) = find_offer_address(&program(), &market.maker, id).expect("found");
    TakeOffer {
        taker: market.taker,
        maker: market.maker,
        token_mint_a: market.mint_a,
        token_mint_b: market.mint_b,
        taker_token_account_a: market.taker_a,
        taker_token_account_b: market.taker_b,
        maker_token_account_b: market.maker_b,
        offer,
        vault: associated(&offer, &market.mint_a),
    }
}

fn balance(ledger: &Ledger, account: &Address) -> Option<u64> {
    ledger.token_account(account).map(|held| held.amount)
}

#[test]
fn offer_made_and_taken_swaps_the_two_assets() {
    let mut market = market(1000, 50);
    let make = making(&market, 1);
    let take = taking(&market, 1);

    assert!(make_offer(&mut market.ledger, &make, 1, 100, 50).is_ok());
    assert!(take_offer(&mut market.ledger, &take).is_ok());

    assert_eq!(balance(&market.ledger, &market.maker_a), Some(900));
    assert_eq!(balance(&market.ledger, &market.maker_b), Some(50));
    assert_eq!(balance(&market.ledger, &market.taker_a), Some(100));
    assert_eq!(balance(&market.ledger, &market.taker_b), Some(0));
    assert_eq!(market.ledger.offer(&make.offer), None);
    assert_eq!(market.ledger.token_account(&make.vault), None);
}

#[test]
fn offer_of_nothing_is_an_invalid_amount() {
    let mut market = market(1000, 50);
    let make = making(&market, 1);

    assert_eq!(make_offer(&mut market.ledger, &make, 1, 0, 50), Err(SwapError::InvalidAmount));

    assert_eq!(balance(&market.ledger, &market.maker_a), Some(1000));
    assert_eq!(market.ledger.offer(&make.offer), None);
    assert_eq!(market.ledger.token_account(&make.vault), None);
}

#[test]
fn offer_for_nothing_is_an_invalid_amount() {
    let mut market = market(1000, 50);
    let make = making(&market, 1);

    assert_eq!(make_offer(&mut market.ledger, &make, 1, 100, 0), Err(SwapError::InvalidAmount));

    assert_eq!(balance(&market.ledger, &market.maker_a), Some(1000));
    assert_eq!(market.ledger.offer(&make.offer), None);
}

#[test]
fn taker_short_of_the_price_is_rejected_and_the_vault_keeps_its_funds() {
    let mut market = market(1000, 10);
    let make = making(&market, 1);
    let take = taking(&market, 1);
    assert!(make_offer(&mut market.ledger, &make, 1, 100, 50).is_ok());

    assert_eq!(take_offer(&mut market.ledger, &take), Err(SwapError::InsufficientBalance));

    assert_eq!(balance(&market.ledger, &make.vault), Some(100));
    assert_eq!(balance(&market.ledger, &market.taker_b), Some(10));
    assert_eq!(balance(&market.ledger, &market.taker_a), None);
    assert_eq!(balance(&market.ledger, &market.maker_b), None);
    assert!(market.ledger.offer(&make.offer).is_some());
}

#[test]
fn made_offer_funds_the_vault_and_records_the_fields_given() {
    let mut market = market(1000, 50);
    let make = making(&market, 7);
    let (_, bump) = find_offer_address(&program(), &market.maker, 7).expect("found");
    let expected = Offer {
        id: 7,
        maker: market.maker,
        token_mint_a: market.mint_a,
        token_mint_b: market.mint_b,
        amt_token_a_offered: 250,
        amt_token_b_wanted: 40,
        bump,
    };

    assert_eq!(make_offer(&mut market.ledger, &make, 7, 250, 40), Ok(expected));

    assert_eq!(market.ledger.offer(&make.offer), Some(expected));
    assert_eq!(
        market.ledger.token_account(&make.vault),
        Some(TokenAccount {
            address: make.vault,
            mint: market.mint_a,
            owner: make.offer,
            amount: 250,
        })
    );
    assert_eq!(balance(&market.ledger, &market.maker_a), Some(750));
}

#[test]
fn maker_short_of_the_amount_offered_leaves_no_offer() {
    let mut market = market(99, 50);
    let make = making(&market, 1);

    assert_eq!(
        make_offer(&mut market.ledger, &make, 1, 100, 50),
        Err(SwapError::InsufficientBalance)
    );

    assert_eq!(market.ledger.offer(&make.offer), None);
    assert_eq!(market.ledger.token_account(&make.vault), None);
    assert_eq!(balance(&market.ledger, &market.maker_a), Some(99));
}

#[test]
fn maker_without_an_account_leaves_no_offer() {
    let mut ledger = Ledger::new(program(), token_program());
    let maker = Address::new([1u8; 32]);
    let mint_a = Address::new([3u8; 32]);
    let mint_b = Address::new([4u8; 32]);
    let (offer, _) = find_offer_address(&program(), &maker, 1).expect("found");
    let make = MakeOffer {
        maker,
        token_mint_a: mint_a,
        token_mint_b: mint_b,
        maker_token_account_a: associated(&maker, &mint_a),
        offer,
        vault: associated(&offer, &mint_a),
    };

    assert_eq!(make_offer(&mut ledger, &make, 1, 100, 50), Err(SwapError::InsufficientBalance));

    assert_eq!(ledger.offer(&offer), None);
    assert_eq!(ledger.token_account(&make.vault), None);
}

#[test]
fn whole_balance_can_be_offered() {
    let mut market = market(100, 50);
    let make = making(&market, 1);

    assert!(make_offer(&mut market.ledger, &make, 1, 100, 50).is_ok());

    assert_eq!(balance(&market.ledger, &market.maker_a), Some(0));
    assert_eq!(balance(&market.ledger, &make.vault), Some(100));
}

#[test]
fn offer_taken_once_is_not_found_again() {
    let mut market = market(1000, 500);
    let make = making(&market, 1);
    let take = taking(&market, 1);
    assert!(make_offer(&mut market.ledger, &make, 1, 100, 50).is_ok());
    assert!(take_offer(&mut market.ledger, &take).is_ok());

    assert_eq!(take_offer(&mut market.ledger, &take), Err(SwapError::EntryNotFound));

    assert_eq!(balance(&market.ledger, &market.maker_a), Some(900));
    assert_eq!(balance(&market.ledger, &market.maker_b), Some(50));
    assert_eq!(balance(&market.ledger, &market.taker_a), Some(100));
    assert_eq!(balance(&market.ledger, &market.taker_b), Some(450));
}

#[test]
fn offer_never_made_is_not_found() {
    let mut market = market(1000, 50);
    let take = taking(&market, 1);

    assert_eq!(take_offer(&mut market.ledger, &take), Err(SwapError::EntryNotFound));

    assert_eq!(balance(&market.ledger, &market.taker_b), Some(50));
    assert_eq!(balance(&market.ledger, &market.maker_a), Some(1000));
}

#[test]
fn settlement_naming_another_maker_is_a_mismatch() {
    let mut market = market(1000, 50);
    let make = making(&market, 1);
    assert!(make_offer(&mut market.ledger, &make, 1, 100, 50).is_ok());
    let take = TakeOffer { maker: Address::new([8u8; 32]), ..taking(&market, 1) };

    assert_eq!(take_offer(&mut market.ledger, &take), Err(SwapError::EntryMismatch));

    assert_eq!(balance(&market.ledger, &make.vault), Some(100));
    assert_eq!(balance(&market.ledger, &market.taker_b), Some(50));
    assert!(market.ledger.offer(&make.offer).is_some());
}

#[test]
fn settlement_naming_another_offered_asset_is_a_mismatch() {
    let mut market = market(1000, 50);
    let make = making(&market, 1);
    assert!(make_offer(&mut market.ledger, &make, 1, 100, 50).is_ok());
    let take = TakeOffer { token_mint_a: Address::new([8u8; 32]), ..taking(&market, 1) };

    assert_eq!(take_offer(&mut market.ledger, &take), Err(SwapError::EntryMismatch));

    assert_eq!(balance(&market.ledger, &make.vault), Some(100));
    assert_eq!(balance(&market.ledger, &market.taker_b), Some(50));
}

#[test]
fn settlement_naming_another_wanted_asset_is_a_mismatch() {
    let mut market = market(1000, 50);
    let make = making(&market, 1);
    assert!(make_offer(&mut market.ledger, &make, 1, 100, 50).is_ok());
    let take = TakeOffer { token_mint_b: market.mint_a, ..taking(&market, 1) };

    assert_eq!(take_offer(&mut market.ledger, &take), Err(SwapError::EntryMismatch));

    assert_eq!(balance(&market.ledger, &make.vault), Some(100));
    assert_eq!(balance(&market.ledger, &market.taker_b), Some(50));
}

#[test]
fn mismatch_is_reported_before_a_short_balance() {
    let mut market = market(1000, 10);
    let make = making(&market, 1);
    assert!(make_offer(&mut market.ledger, &make, 1, 100, 50).is_ok());
    let take = TakeOffer { maker: Address::new([8u8; 32]), ..taking(&market, 1) };

    assert_eq!(take_offer(&mut market.ledger, &take), Err(SwapError::EntryMismatch));
}

#[test]
fn settlement_naming_another_vault_is_a_derivation_mismatch() {
    let mut market = market(1000, 50);
    let make = making(&market, 1);
    assert!(make_offer(&mut market.ledger, &make, 1, 100, 50).is_ok());
    let take = TakeOffer { vault: market.maker_a, ..taking(&market, 1) };

    assert_eq!(take_offer(&mut market.ledger, &take), Err(SwapError::DerivationMismatch));

    assert_eq!(balance(&market.ledger, &market.maker_a), Some(900));
    assert_eq!(balance(&market.ledger, &make.vault), Some(100));
    assert_eq!(balance(&market.ledger, &market.taker_b), Some(50));
}

#[test]
fn settlement_paying_into_a_strangers_account_is_a_derivation_mismatch() {
    let mut market = market(1000, 50);
    let make = making(&market, 1);
    assert!(make_offer(&mut market.ledger, &make, 1, 100, 50).is_ok());
    let stranger = Address::new([8u8; 32]);
    let take =
        TakeOffer { maker_token_account_b: associated(&stranger, &market.mint_b), ..taking(&market, 1) };

    assert_eq!(take_offer(&mut market.ledger, &take), Err(SwapError::DerivationMismatch));

    assert_eq!(balance(&market.ledger, &market.taker_b), Some(50));
    assert_eq!(balance(&market.ledger, &make.vault), Some(100));
}

#[test]
fn settlement_drawing_on_a_strangers_account_is_a_derivation_mismatch() {
    let mut market = market(1000, 50);
    let make = making(&market, 1);
    assert!(make_offer(&mut market.ledger, &make, 1, 100, 50).is_ok());
    let stranger = Address::new([8u8; 32]);
    let strangers = market.ledger.create_token_account(&stranger, &market.mint_b).expect("opened");
    assert!(market.ledger.mint_to(&strangers, 500));
    let take = TakeOffer { taker_token_account_b: strangers, ..taking(&market, 1) };

    assert_eq!(take_offer(&mut market.ledger, &take), Err(SwapError::DerivationMismatch));

    assert_eq!(balance(&market.ledger, &strangers), Some(500));
    assert_eq!(balance(&market.ledger, &make.vault), Some(100));
}

#[test]
fn offer_at_an_address_not_derived_for_it_is_a_derivation_mismatch() {
    let mut market = market(1000, 50);
    let make = MakeOffer { offer: Address::new([8u8; 32]), ..making(&market, 1) };

    assert_eq!(
        make_offer(&mut market.ledger, &make, 1, 100, 50),
        Err(SwapError::DerivationMismatch)
    );

    assert_eq!(balance(&market.ledger, &market.maker_a), Some(1000));
    assert_eq!(market.ledger.offer(&make.offer), None);
}

#[test]
fn offer_under_the_address_of_another_id_is_a_derivation_mismatch() {
    let mut market = market(1000, 50);
    let make = making(&market, 2);

    assert_eq!(
        make_offer(&mut market.ledger, &make, 1, 100, 50),
        Err(SwapError::DerivationMismatch)
    );

    assert_eq!(balance(&market.ledger, &market.maker_a), Some(1000));
}

#[test]
fn offer_with_a_vault_not_derived_for_it_is_a_derivation_mismatch() {
    let mut market = market(1000, 50);
    let make = MakeOffer { vault: associated(&market.maker, &market.mint_b), ..making(&market, 1) };

    assert_eq!(
        make_offer(&mut market.ledger, &make, 1, 100, 50),
        Err(SwapError::DerivationMismatch)
    );

    assert_eq!(balance(&market.ledger, &market.maker_a), Some(1000));
    assert_eq!(market.ledger.offer(&make.offer), None);
}

#[test]
fn offer_whose_vault_address_is_taken_is_a_derivation_mismatch() {
    let mut market = market(1000, 50);
    let make = making(&market, 1);
    let squatted = market.ledger.create_token_account(&make.offer, &market.mint_a);
    assert_eq!(squatted, Some(make.vault));

    assert_eq!(
        make_offer(&mut market.ledger, &make, 1, 100, 50),
        Err(SwapError::DerivationMismatch)
    );

    assert_eq!(balance(&market.ledger, &market.maker_a), Some(1000));
    assert_eq!(balance(&market.ledger, &make.vault), Some(0));
    assert_eq!(market.ledger.offer(&make.offer), None);
}

#[test]
fn offer_of_an_asset_for_itself_is_a_mismatch() {
    let mut market = market(1000, 50);
    let make = MakeOffer { token_mint_b: market.mint_a, ..making(&market, 1) };

    assert_eq!(make_offer(&mut market.ledger, &make, 1, 100, 50), Err(SwapError::EntryMismatch));

    assert_eq!(balance(&market.ledger, &market.maker_a), Some(1000));
    assert_eq!(market.ledger.offer(&make.offer), None);
}

#[test]
fn second_offer_under_one_id_is_a_mismatch_and_keeps_the_first() {
    let mut market = market(1000, 50);
    let make = making(&market, 1);
    let first = make_offer(&mut market.ledger, &make, 1, 100, 50).expect("made");

    assert_eq!(make_offer(&mut market.ledger, &make, 1, 200, 70), Err(SwapError::EntryMismatch));

    assert_eq!(market.ledger.offer(&make.offer), Some(first));
    assert_eq!(balance(&market.ledger, &make.vault), Some(100));
    assert_eq!(balance(&market.ledger, &market.maker_a), Some(900));
}

#[test]
fn offers_under_two_ids_stand_side_by_side() {
    let mut market = market(1000, 500);
    let first = making(&market, 1);
    let second = making(&market, 2);
    assert_ne!(first.offer, second.offer);
    assert_ne!(first.vault, second.vault);

    assert!(make_offer(&mut market.ledger, &first, 1, 100, 50).is_ok());
    assert!(make_offer(&mut market.ledger, &second, 2, 300, 20).is_ok());
    let take = taking(&market, 2);
    assert!(take_offer(&mut market.ledger, &take).is_ok());

    assert_eq!(balance(&market.ledger, &first.vault), Some(100));
    assert!(market.ledger.offer(&first.offer).is_some());
    assert_eq!(market.ledger.offer(&second.offer), None);
    assert_eq!(balance(&market.ledger, &second.vault), None);
    assert_eq!(balance(&market.ledger, &market.maker_a), Some(600));
    assert_eq!(balance(&market.ledger, &market.taker_a), Some(300));
    assert_eq!(balance(&market.ledger, &market.taker_b), Some(480));
    assert_eq!(balance(&market.ledger, &market.maker_b), Some(20));
}

#[test]
fn settlement_reports_what_it_did() {
    let mut market = market(1000, 50);
    let make = making(&market, 1);
    let take = taking(&market, 1);
    let offer = make_offer(&mut market.ledger, &make, 1, 100, 50).expect("made");

    let settlement = take_offer(&mut market.ledger, &take).expect("settled");

    assert_eq!(
        settlement.payment,
        Transfer {
            from: market.taker_b,
            to: market.maker_b,
            mint: market.mint_b,
            authority: market.taker,
            amount: 50,
        }
    );
    assert_eq!(
        settlement.release.transfer,
        Transfer {
            from: make.vault,
            to: market.taker_a,
            mint: market.mint_a,
            authority: make.offer,
            amount: 100,
        }
    );
    assert_eq!(
        settlement.release.close,
        CloseAccount { account: make.vault, destination: market.taker, authority: make.offer }
    );
    assert_eq!(
        settlement.release.signer_seeds,
        vec![
            b"offer".to_vec(),
            market.maker.bytes.to_vec(),
            1u64.to_le_bytes().to_vec(),
            vec![offer.bump],
        ]
    );
    assert_eq!(
        settlement.retired,
        CloseAccount { account: make.offer, destination: market.maker, authority: program() }
    );
}

#[test]
fn settlement_pays_into_accounts_that_are_open_already() {
    let mut market = market(1000, 50);
    let maker_b = market.ledger.create_token_account(&market.maker, &market.mint_b).expect("opened");
    let taker_a = market.ledger.create_token_account(&market.taker, &market.mint_a).expect("opened");
    assert!(market.ledger.mint_to(&maker_b, 5));
    assert!(market.ledger.mint_to(&taker_a, 7));
    let make = making(&market, 1);
    assert!(make_offer(&mut market.ledger, &make, 1, 100, 50).is_ok());

    let take = taking(&market, 1);
    assert!(take_offer(&mut market.ledger, &take).is_ok());

    assert_eq!(balance(&market.ledger, &maker_b), Some(55));
    assert_eq!(balance(&market.ledger, &taker_a), Some(107));
}

#[test]
fn maker_may_take_their_own_offer_back() {
    let mut market = market(1000, 0);
    let maker_b = market.ledger.create_token_account(&market.maker, &market.mint_b).expect("opened");
    assert!(market.ledger.mint_to(&maker_b, 60));
    let make = making(&market, 1);
    assert!(make_offer(&mut market.ledger, &make, 1, 100, 50).is_ok());
    let take = TakeOffer {
        taker: market.maker,
        taker_token_account_a: market.maker_a,
        taker_token_account_b: maker_b,
        ..taking(&market, 1)
    };

    assert!(take_offer(&mut market.ledger, &take).is_ok());

    assert_eq!(balance(&market.ledger, &market.maker_a), Some(1000));
    assert_eq!(balance(&market.ledger, &maker_b), Some(60));
    assert_eq!(market.ledger.offer(&make.offer), None);
    assert_eq!(market.ledger.token_account(&make.vault), None);
}

#[test]
fn neither_operation_changes_what_is_in_circulation() {
    let mut market = market(1000, 50);
    let make = making(&market, 1);
    assert!(make_offer(&mut market.ledger, &make, 1, 100, 50).is_ok());
    assert_eq!(market.ledger.total_supply(&market.mint_a), 1000);
    assert_eq!(market.ledger.total_supply(&market.mint_b), 50);

    let take = taking(&market, 1);
    assert!(take_offer(&mut market.ledger, &take).is_ok());

    assert_eq!(market.ledger.total_supply(&market.mint_a), 1000);
    assert_eq!(market.ledger.total_supply(&market.mint_b), 50);
}

#[test]
fn address_of_a_recorded_offer_cannot_act_as_a_party() {
    let mut market = market(1000, 50);
    let make = making(&market, 1);
    assert!(make_offer(&mut market.ledger, &make, 1, 100, 50).is_ok());
    let (second, _) = find_offer_address(&program(), &make.offer, 2).expect("found");
    let posing = MakeOffer {
        maker: make.offer,
        token_mint_a: market.mint_a,
        token_mint_b: market.mint_b,
        maker_token_account_a: make.vault,
        offer: second,
        vault: associated(&second, &market.mint_a),
    };

    assert_eq!(
        make_offer(&mut market.ledger, &posing, 2, 100, 50),
        Err(SwapError::DerivationMismatch)
    );

    assert_eq!(balance(&market.ledger, &make.vault), Some(100));
    assert_eq!(market.ledger.offer(&second), None);
}
