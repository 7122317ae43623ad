use std::collections::HashMap;

use battlechain::battlechain::{BattleState, Event as BattleEvent, Pallet as Battles};
use battlechain::dispatch::{DispatchError, Origin, Transfer};
use battlechain::prediction_market::{
    Config, Error, Event, MarketOutcome, MarketState, Pallet,
};

type Outcome = Result<(), DispatchError<Error>>;

/// The accounts, the two pallets and the block number of a test.
struct World {
    balances: HashMap<u64, u128>,
    battles: Battles,
    markets: Pallet,
    now: u64,
}

fn new_test_ext() -> World {
    let mut balances = HashMap::new();
    for who in 1..=4u64 {
        balances.insert(who, 10000u128);
    }
    World {
        balances,
        battles: Battles::new(),
        markets: Pallet::new(Config { pallet_id: *b"predmrkt", platform_fee_bps: 200 }),
        now: 1,
    }
}

/// Moves the funds of a transfer, keeping at least one unit on the payer's account where
/// asked to; false where the payer cannot afford it.
fn pay(balances: &mut HashMap<u64, u128>, t: &Transfer) -> bool {
    let from = *balances.get(&t.from).unwrap_or(&0);
    let floor = if t.keep_alive { 1 } else { 0 };
    if from < t.amount.saturating_add(floor) {
        return false;
    }
    balances.insert(t.from, from - t.amount);
    *balances.entry(t.to).or_insert(0) += t.amount;
    true
}

fn signed(who: u64) -> Origin {
    Origin::Signed(who)
}

fn place(w: &mut World, who: u64, market_id: [u8; 32], outcome_id: u8, amount: u128) -> Outcome {
    let t = w.markets.plan_place_prediction(signed(who), &market_id, outcome_id, amount)?;
    let paid = pay(&mut w.balances, &t);
    w.markets.place_prediction(signed(who), market_id, outcome_id, amount, paid)
}

fn claim(w: &mut World, who: u64, market_id: [u8; 32]) -> Outcome {
    let t = w.markets.plan_claim_winnings(signed(who), &market_id)?;
    let paid = pay(&mut w.balances, &t);
    w.markets.claim_winnings(signed(who), market_id, paid)
}

/// Characters for accounts 1 and 2, and a battle between them; returns its id.
fn create_battle(w: &mut World) -> [u8; 32] {
    assert_eq!(w.battles.create_character(signed(1), 0), Ok(()));
    assert_eq!(w.battles.create_character(signed(2), 1), Ok(()));
    assert_eq!(w.battles.create_battle_offer(signed(1), 0, 100, 3, w.now), Ok(()));
    if let Some(BattleEvent::BattleOfferCreated { battle_id, .. }) = w.battles.events().last() {
        let bid = *battle_id;
        assert_eq!(w.battles.accept_battle(signed(2), bid, 1, w.now), Ok(()));
        bid
    } else {
        panic!("Expected BattleOfferCreated event");
    }
}

fn last_market_id(w: &World) -> [u8; 32] {
    if let Some(Event::MarketCreated { market_id, .. }) = w.markets.events().last() {
        *market_id
    } else {
        panic!("Expected MarketCreated event");
    }
}

#[test]
fn create_market_works() {
    let mut w = new_test_ext();
    let battle_id = create_battle(&mut w);
    assert_eq!(w.markets.create_market(&w.battles, signed(1), battle_id, w.now), Ok(()));
    assert!(w.markets.events().iter().any(|e| matches!(e, Event::MarketCreated { .. })));
}

#[test]
fn place_prediction_works() {
    let mut w = new_test_ext();
    let battle_id = create_battle(&mut w);
    assert_eq!(w.markets.create_market(&w.battles, signed(1), battle_id, w.now), Ok(()));
    let market_id = last_market_id(&w);
    assert_eq!(place(&mut w, 3, market_id, 0, 500), Ok(()));
    let prediction = w.markets.prediction(&market_id, 3).unwrap();
    assert_eq!(prediction.outcome_id, 0);
    assert_eq!(prediction.amount, 500);
    assert_eq!(prediction.claimed, false);
}

#[test]
fn multiple_predictions_work() {
    let mut w = new_test_ext();
    let battle_id = create_battle(&mut w);
    assert_eq!(w.markets.create_market(&w.battles, signed(1), battle_id, w.now), Ok(()));
    let market_id = last_market_id(&w);
    assert_eq!(place(&mut w, 3, market_id, 0, 500), Ok(()));
    assert_eq!(place(&mut w, 4, market_id, 1, 300), Ok(()));
    let market = w.markets.market(&market_id).unwrap();
    assert_eq!(market.total_pool, 800);
    assert_eq!(market.player1_pool, 500);
    assert_eq!(market.player2_pool, 300);
}

#[test]
fn invalid_outcome_fails() {
    let mut w = new_test_ext();
    let battle_id = create_battle(&mut w);
    assert_eq!(w.markets.create_market(&w.battles, signed(1), battle_id, w.now), Ok(()));
    let market_id = last_market_id(&w);
    let (markets_before, balances_before) = (w.markets.clone(), w.balances.clone());
    assert_eq!(place(&mut w, 3, market_id, 3, 500), Err(DispatchError::Pallet(Error::InvalidOutcome)));
    assert_eq!((&w.markets, &w.balances), (&markets_before, &balances_before));
    assert_eq!(w.markets.market(&market_id).unwrap().total_pool, 0);
}

#[test]
fn lock_market_works() {
    let mut w = new_test_ext();
    let battle_id = create_battle(&mut w);
    assert_eq!(w.markets.create_market(&w.battles, signed(1), battle_id, w.now), Ok(()));
    let market_id = last_market_id(&w);
    assert_eq!(w.markets.lock_market(signed(1), market_id), Ok(()));
    let market = w.markets.market(&market_id).unwrap();
    assert_eq!(MarketState::from_u8(market.state_id).unwrap(), MarketState::Locked);
}

#[test]
fn cannot_predict_on_locked_market() {
    let mut w = new_test_ext();
    let battle_id = create_battle(&mut w);
    assert_eq!(w.markets.create_market(&w.battles, signed(1), battle_id, w.now), Ok(()));
    let market_id = last_market_id(&w);
    assert_eq!(w.markets.lock_market(signed(1), market_id), Ok(()));
    let (markets_before, balances_before) = (w.markets.clone(), w.balances.clone());
    assert_eq!(place(&mut w, 3, market_id, 0, 500), Err(DispatchError::Pallet(Error::MarketNotOpen)));
    assert_eq!((&w.markets, &w.balances), (&markets_before, &balances_before));
}

#[test]
fn market_already_exists_error() {
    let mut w = new_test_ext();
    let battle_id = create_battle(&mut w);
    assert_eq!(w.markets.create_market(&w.battles, signed(1), battle_id, w.now), Ok(()));
    let (markets_before, balances_before) = (w.markets.clone(), w.balances.clone());
    assert_eq!(
        w.markets.create_market(&w.battles, signed(2), battle_id, w.now),
        Err(DispatchError::Pallet(Error::MarketAlreadyExists))
    );
    assert_eq!((&w.markets, &w.balances), (&markets_before, &balances_before));
}

#[test]
fn market_state_transitions() {
    let mut w = new_test_ext();
    let battle_id = create_battle(&mut w);
    assert_eq!(w.markets.create_market(&w.battles, signed(1), battle_id, w.now), Ok(()));
    let market_id = last_market_id(&w);
    let market = w.markets.market(&market_id).unwrap();
    assert_eq!(MarketState::from_u8(market.state_id).unwrap(), MarketState::Open);
    assert_eq!(w.markets.lock_market(signed(1), market_id), Ok(()));
    let market = w.markets.market(&market_id).unwrap();
    assert_eq!(MarketState::from_u8(market.state_id).unwrap(), MarketState::Locked);
}

#[test]
fn resolve_and_claim_winnings() {
    let mut w = new_test_ext();
    let battle_id = create_battle(&mut w);
    assert_eq!(w.markets.create_market(&w.battles, signed(1), battle_id, w.now), Ok(()));
    let market_id = last_market_id(&w);
    assert_eq!(place(&mut w, 3, market_id, 0, 500), Ok(()));
    assert_eq!(place(&mut w, 4, market_id, 1, 300), Ok(()));
    assert_eq!(
        w.markets.resolve_market(&w.battles, signed(3), market_id, 2),
        Err(DispatchError::Pallet(Error::MarketNotLocked))
    );
    assert_eq!(w.markets.lock_market(signed(1), market_id), Ok(()));
    assert_eq!(
        w.markets.resolve_market(&w.battles, signed(3), market_id, 2),
        Err(DispatchError::Pallet(Error::BattleNotFinished))
    );
    // The warrior of player 1 wins two rounds of three.
    assert_eq!(w.battles.execute_round(signed(1), battle_id, 2), Ok(()));
    assert_eq!(w.battles.execute_round(signed(1), battle_id, 3), Ok(()));
    assert_eq!(w.battles.battle(&battle_id).unwrap().state, BattleState::Finished);
    assert_eq!(w.markets.resolve_market(&w.battles, signed(3), market_id, 4), Ok(()));
    let market = w.markets.market(&market_id).unwrap();
    assert_eq!(market.outcome_id, Some(0));
    assert_eq!(market.resolve_block, Some(4));
    assert_eq!(MarketState::from_u8(market.state_id).unwrap(), MarketState::Resolved);
    assert_eq!(claim(&mut w, 4, market_id), Err(DispatchError::Pallet(Error::NoWinnings)));
    assert_eq!(claim(&mut w, 2, market_id), Err(DispatchError::Pallet(Error::PredictionNotFound)));
    let before = *w.balances.get(&3).unwrap();
    assert_eq!(claim(&mut w, 3, market_id), Ok(()));
    // Pool of 800 less a 2% fee of 16, all of it to the only winner.
    assert_eq!(*w.balances.get(&3).unwrap() - before, 784);
    assert_eq!(
        w.markets.events().last(),
        Some(&Event::WinningsClaimed { market_id, predictor: 3, payout: 784 })
    );
    assert!(w.markets.prediction(&market_id, 3).unwrap().claimed);
    assert_eq!(claim(&mut w, 3, market_id), Err(DispatchError::Pallet(Error::AlreadyClaimed)));
}

#[test]
fn winners_share_at_most_the_pool_less_the_fee() {
    let mut w = new_test_ext();
    let battle_id = create_battle(&mut w);
    assert_eq!(w.markets.create_market(&w.battles, signed(1), battle_id, w.now), Ok(()));
    let market_id = last_market_id(&w);
    assert_eq!(place(&mut w, 3, market_id, 0, 200), Ok(()));
    assert_eq!(place(&mut w, 4, market_id, 0, 100), Ok(()));
    assert_eq!(place(&mut w, 2, market_id, 1, 500), Ok(()));
    assert_eq!(w.markets.lock_market(signed(1), market_id), Ok(()));
    assert_eq!(w.battles.execute_round(signed(1), battle_id, 2), Ok(()));
    assert_eq!(w.battles.execute_round(signed(1), battle_id, 3), Ok(()));
    assert_eq!(w.markets.resolve_market(&w.battles, signed(3), market_id, 4), Ok(()));
    let pallet = w.markets.account_id();
    let held = *w.balances.get(&pallet).unwrap();
    assert_eq!(held, 800);
    assert_eq!(claim(&mut w, 3, market_id), Ok(()));
    assert_eq!(claim(&mut w, 4, market_id), Ok(()));
    // 200 * 784 / 300 and 100 * 784 / 300, rounded down: 783 of the 784 left after the fee.
    let paid = held - *w.balances.get(&pallet).unwrap();
    assert_eq!(paid, 522 + 261);
    assert!(paid <= 800 - 16);
}

#[test]
fn market_errors() {
    let mut w = new_test_ext();
    assert_eq!(
        w.markets.create_market(&w.battles, signed(1), [4u8; 32], 1),
        Err(DispatchError::Pallet(Error::BattleNotFound))
    );
    assert_eq!(w.markets.lock_market(signed(1), [4u8; 32]), Err(DispatchError::Pallet(Error::MarketNotFound)));
    assert_eq!(claim(&mut w, 1, [4u8; 32]), Err(DispatchError::Pallet(Error::MarketNotFound)));
    assert_eq!(w.markets.lock_market(Origin::Root, [4u8; 32]), Err(DispatchError::BadOrigin));
    let battle_id = create_battle(&mut w);
    assert_eq!(w.markets.create_market(&w.battles, signed(1), battle_id, 1), Ok(()));
    let market_id = last_market_id(&w);
    assert_eq!(claim(&mut w, 3, market_id), Err(DispatchError::Pallet(Error::MarketNotResolved)));
    assert_eq!(
        w.markets.place_prediction(signed(3), market_id, 2, 10, false),
        Err(DispatchError::TransferFailed)
    );
    assert_eq!(w.markets.market(&market_id).unwrap().draw_pool, 0);
    assert_eq!(place(&mut w, 3, market_id, 2, 10), Ok(()));
    assert_eq!(w.markets.market(&market_id).unwrap().draw_pool, 10);
    assert_eq!(w.markets.account_id(), u64::from_le_bytes(*b"modlpred"));
    assert_eq!(w.markets.battle_market(&battle_id), Some(market_id));
}

#[test]
fn outcome_codes_round_trip() {
    for o in [MarketOutcome::Player1Wins, MarketOutcome::Player2Wins, MarketOutcome::Draw] {
        assert_eq!(MarketOutcome::from_u8(o.to_u8()), Ok(o));
    }
    for s in [MarketState::Open, MarketState::Locked, MarketState::Resolved, MarketState::Cancelled] {
        assert_eq!(MarketState::from_u8(s.to_u8()), Ok(s));
    }
    assert_eq!(MarketOutcome::from_u8(3), Err(()));
    assert_eq!(MarketState::from_u8(4), Err(()));
}
