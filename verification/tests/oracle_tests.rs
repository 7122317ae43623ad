use std::collections::HashMap;

use battlechain::battlechain::{Event as BattleEvent, Pallet as Battles};
use battlechain::dispatch::{DispatchError, Origin, Transfer};
use battlechain::game_oracle::{
    Config, DeveloperStatus, DisputeOutcome, Error, Event, Pallet, ResultStatus,
};

type Outcome = Result<(), DispatchError<Error>>;

/// The accounts, the two pallets and the block number of a test.
struct World {
    balances: HashMap<u64, u128>,
    battles: Battles,
    oracle: Pallet,
    now: u64,
}

fn new_test_ext() -> World {
    let config = Config {
        pallet_id: *b"gameorac",
        provider_rev_share_bps: 7000,
        query_fee: 100,
        developer_stake: 1000,
        result_stake: 100,
        dispute_period: 100,
        dispute_stake: 200,
    };
    let mut balances = HashMap::new();
    for who in 1..=4u64 {
        balances.insert(who, 10000u128);
    }
    World { balances, battles: Battles::new(), oracle: Pallet::new(config), now: 1 }
}

/// Moves the funds of a transfer, keeping at least one unit on the payer's account where
/// asked to; false where the payer cannot afford it.
fn pay(balances: &mut HashMap<u64, u128>, t: &Transfer) -> bool {
    let from = *balances.get(&t.from).unwrap_or(&0);
    let floor = if t.keep_alive { 1 } else { 0 };
    if from < t.amount.saturating_add(floor) {
        return false;
    }
    balances.insert(t.from, from - t.amount);
    *balances.entry(t.to).or_insert(0) += t.amount;
    true
}

fn free_balance(w: &World, who: u64) -> u128 {
    *w.balances.get(&who).unwrap_or(&0)
}

fn signed(who: u64) -> Origin {
    Origin::Signed(who)
}

fn game_name() -> Vec<u8> {
    "TestGame".as_bytes().to_vec()
}

fn register(w: &mut World, who: u64, name: Vec<u8>) -> Outcome {
    let t = w.oracle.plan_register_developer(signed(who), &name)?;
    let paid = pay(&mut w.balances, &t);
    w.oracle.register_developer(signed(who), name, w.now, paid)
}

fn submit(w: &mut World, who: u64, battle_id: [u8; 32], name: Vec<u8>) -> Outcome {
    let t = w.oracle.plan_submit_result(&w.battles, signed(who), &battle_id)?;
    let paid = pay(&mut w.balances, &t);
    w.oracle.submit_result(
        &w.battles,
        signed(who),
        battle_id,
        Some(1),
        1,
        4,
        3,
        2,
        3,
        name,
        1,
        Vec::new(),
        w.now,
        paid,
    )
}

fn finalize(w: &mut World, who: u64, result_id: [u8; 32]) -> Outcome {
    let t = w.oracle.plan_finalize_result(signed(who), &result_id, w.now)?;
    let paid = pay(&mut w.balances, &t);
    w.oracle.finalize_result(signed(who), result_id, w.now, paid)
}

fn query(w: &mut World, who: u64, result_id: [u8; 32]) -> Outcome {
    let t = w.oracle.plan_query_result(signed(who), &result_id)?;
    let paid = pay(&mut w.balances, &t);
    w.oracle.query_result(signed(who), result_id, paid)
}

fn dispute(w: &mut World, who: u64, result_id: [u8; 32]) -> Outcome {
    let t = w.oracle.plan_create_dispute(signed(who), &result_id, w.now)?;
    let paid = pay(&mut w.balances, &t);
    w.oracle.create_dispute(signed(who), result_id, b"wrong winner".to_vec(), [7u8; 32], w.now, paid)
}

fn resolve(w: &mut World, origin: Origin, dispute_id: [u8; 32], challenger_wins: bool) -> Outcome {
    let t = w.oracle.plan_resolve_dispute(origin, &dispute_id, challenger_wins)?;
    let paid = pay(&mut w.balances, &t);
    w.oracle.resolve_dispute(origin, dispute_id, challenger_wins, w.now, paid)
}

fn claim(w: &mut World, who: u64) -> Outcome {
    let t = w.oracle.plan_claim_revenue(signed(who))?;
    let paid = pay(&mut w.balances, &t);
    w.oracle.claim_revenue(signed(who), paid)
}

/// Characters for accounts 1 and 4, and a battle between them; returns its id.
fn create_battle(w: &mut World) -> [u8; 32] {
    assert_eq!(w.battles.create_character(signed(1), 0), Ok(()));
    assert_eq!(w.battles.create_character(signed(4), 1), Ok(()));
    assert_eq!(w.battles.create_battle_offer(signed(1), 0, 100, 3, w.now), Ok(()));
    if let Some(BattleEvent::BattleOfferCreated { battle_id, .. }) = w.battles.events().last() {
        let bid = *battle_id;
        assert_eq!(w.battles.accept_battle(signed(4), bid, 1, w.now), Ok(()));
        bid
    } else {
        panic!("Expected BattleOfferCreated event");
    }
}

fn last_result_id(w: &World) -> [u8; 32] {
    if let Some(Event::ResultSubmitted { result_id, .. }) = w.oracle.events().last() {
        *result_id
    } else {
        panic!("Expected ResultSubmitted event");
    }
}

fn last_dispute_id(w: &World) -> [u8; 32] {
    if let Some(Event::DisputeCreated { dispute_id, .. }) = w.oracle.events().last() {
        *dispute_id
    } else {
        panic!("Expected DisputeCreated event");
    }
}

/// A verified developer 1 with a result submitted for a fresh battle.
fn submitted_result(w: &mut World) -> [u8; 32] {
    assert_eq!(register(w, 1, game_name()), Ok(()));
    assert_eq!(w.oracle.verify_developer(Origin::Root, 1), Ok(()));
    let battle_id = create_battle(w);
    assert_eq!(submit(w, 1, battle_id, game_name()), Ok(()));
    last_result_id(w)
}

#[test]
fn register_developer_works() {
    let mut w = new_test_ext();
    let name = game_name();
    assert_eq!(register(&mut w, 1, name.clone()), Ok(()));
    let developer = w.oracle.developer(1).unwrap();
    assert_eq!(developer.developer, 1);
    assert_eq!(developer.game_name, name);
    assert_eq!(
        DeveloperStatus::from_u8(developer.status.to_u8()).unwrap(),
        DeveloperStatus::Pending
    );
    assert_eq!(developer.staked_amount, 1000);
}

#[test]
fn cannot_register_twice() {
    let mut w = new_test_ext();
    assert_eq!(register(&mut w, 1, game_name()), Ok(()));
    let (oracle_before, balances_before) = (w.oracle.clone(), w.balances.clone());
    assert_eq!(
        register(&mut w, 1, game_name()),
        Err(DispatchError::Pallet(Error::DeveloperAlreadyRegistered))
    );
    assert_eq!((&w.oracle, &w.balances), (&oracle_before, &balances_before));
    assert_eq!(w.oracle.total_staked(), 1000);
}

#[test]
fn verify_developer_works() {
    let mut w = new_test_ext();
    assert_eq!(register(&mut w, 1, game_name()), Ok(()));
    assert_eq!(w.oracle.verify_developer(Origin::Root, 1), Ok(()));
    let developer = w.oracle.developer(1).unwrap();
    assert_eq!(
        DeveloperStatus::from_u8(developer.status.to_u8()).unwrap(),
        DeveloperStatus::Verified
    );
}

#[test]
fn verify_developer_requires_root() {
    let mut w = new_test_ext();
    assert_eq!(register(&mut w, 1, game_name()), Ok(()));
    let (oracle_before, balances_before) = (w.oracle.clone(), w.balances.clone());
    assert_eq!(w.oracle.verify_developer(signed(2), 1), Err(DispatchError::BadOrigin));
    assert_eq!((&w.oracle, &w.balances), (&oracle_before, &balances_before));
    assert_eq!(w.oracle.developer(1).unwrap().status, DeveloperStatus::Pending);
}

#[test]
fn submit_result_works() {
    let mut w = new_test_ext();
    assert_eq!(register(&mut w, 1, game_name()), Ok(()));
    assert_eq!(w.oracle.verify_developer(Origin::Root, 1), Ok(()));
    let battle_id = create_battle(&mut w);
    assert_eq!(submit(&mut w, 1, battle_id, game_name()), Ok(()));
    assert!(w.oracle.events().iter().any(|e| matches!(e, Event::ResultSubmitted { .. })));
}

#[test]
fn submit_result_requires_verified_developer() {
    let mut w = new_test_ext();
    assert_eq!(register(&mut w, 1, game_name()), Ok(()));
    let battle_id = create_battle(&mut w);
    let (oracle_before, balances_before) = (w.oracle.clone(), w.balances.clone());
    assert_eq!(
        submit(&mut w, 1, battle_id, game_name()),
        Err(DispatchError::Pallet(Error::DeveloperNotVerified))
    );
    assert_eq!((&w.oracle, &w.balances), (&oracle_before, &balances_before));
}

#[test]
fn submit_result_battle_must_exist() {
    let mut w = new_test_ext();
    assert_eq!(register(&mut w, 1, game_name()), Ok(()));
    assert_eq!(w.oracle.verify_developer(Origin::Root, 1), Ok(()));
    let fake_battle_id = [0u8; 32];
    let (oracle_before, balances_before) = (w.oracle.clone(), w.balances.clone());
    assert_eq!(
        submit(&mut w, 1, fake_battle_id, game_name()),
        Err(DispatchError::Pallet(Error::BattleNotFound))
    );
    assert_eq!((&w.oracle, &w.balances), (&oracle_before, &balances_before));
}

#[test]
fn developer_stake_is_locked() {
    let mut w = new_test_ext();
    let initial_balance = free_balance(&w, 1);
    assert_eq!(register(&mut w, 1, game_name()), Ok(()));
    let new_balance = free_balance(&w, 1);
    assert_eq!(initial_balance - new_balance, 1000);
}

#[test]
fn result_stake_is_locked() {
    let mut w = new_test_ext();
    assert_eq!(register(&mut w, 1, game_name()), Ok(()));
    assert_eq!(w.oracle.verify_developer(Origin::Root, 1), Ok(()));
    let battle_id = create_battle(&mut w);
    let balance_before_submit = free_balance(&w, 1);
    assert_eq!(submit(&mut w, 1, battle_id, game_name()), Ok(()));
    let balance_after_submit = free_balance(&w, 1);
    assert_eq!(balance_before_submit - balance_after_submit, 100);
}

#[test]
fn cannot_submit_duplicate_result() {
    let mut w = new_test_ext();
    assert_eq!(register(&mut w, 1, game_name()), Ok(()));
    assert_eq!(w.oracle.verify_developer(Origin::Root, 1), Ok(()));
    let battle_id = create_battle(&mut w);
    assert_eq!(submit(&mut w, 1, battle_id, game_name()), Ok(()));
    let (oracle_before, balances_before) = (w.oracle.clone(), w.balances.clone());
    assert_eq!(
        submit(&mut w, 1, battle_id, game_name()),
        Err(DispatchError::Pallet(Error::ResultAlreadyExists))
    );
    assert_eq!((&w.oracle, &w.balances), (&oracle_before, &balances_before));
}

#[test]
fn developer_submission_count_increments() {
    let mut w = new_test_ext();
    assert_eq!(register(&mut w, 1, game_name()), Ok(()));
    assert_eq!(w.oracle.verify_developer(Origin::Root, 1), Ok(()));
    assert_eq!(w.oracle.developer(1).unwrap().total_submissions, 0);
    for _ in 0..3 {
        let battle_id = create_battle(&mut w);
        assert_eq!(submit(&mut w, 1, battle_id, game_name()), Ok(()));
    }
    assert_eq!(w.oracle.developer(1).unwrap().total_submissions, 3);
}

#[test]
fn register_errors() {
    let mut w = new_test_ext();
    assert_eq!(register(&mut w, 1, Vec::new()), Err(DispatchError::Pallet(Error::InvalidGameName)));
    assert_eq!(
        w.oracle.register_developer(signed(1), game_name(), 1, false),
        Err(DispatchError::TransferFailed)
    );
    assert!(w.oracle.developer(1).is_none());
    assert_eq!(w.oracle.total_staked(), 0);
    assert_eq!(
        w.oracle.verify_developer(Origin::Root, 9),
        Err(DispatchError::Pallet(Error::DeveloperNotFound))
    );
    let battle_id = create_battle(&mut w);
    assert_eq!(
        submit(&mut w, 2, battle_id, game_name()),
        Err(DispatchError::Pallet(Error::DeveloperNotFound))
    );
}

#[test]
fn stake_transfers_go_to_the_pallet_account() {
    let w = new_test_ext();
    let t = w.oracle.plan_register_developer(signed(3), &game_name()).unwrap();
    assert_eq!(t.from, 3);
    assert_eq!(t.amount, 1000);
    assert!(t.keep_alive);
    // The account of the pallet: "modl" followed by "game", read little-endian.
    assert_eq!(t.to, u64::from_le_bytes(*b"modlgame"));
    assert_eq!(w.oracle.account_id(), t.to);
}

#[test]
fn result_record_after_submission() {
    let mut w = new_test_ext();
    let result_id = submitted_result(&mut w);
    let result = w.oracle.result(&result_id).unwrap();
    assert_eq!(result.developer, 1);
    assert_eq!(result.stake_amount, 100);
    assert_eq!(result.status, ResultStatus::Submitted);
    assert_eq!(result.dispute_deadline, 101);
    assert_eq!(result.result_data.timestamp, 1);
    assert_eq!(result.result_data.player2, 4);
    assert_ne!(result.data_hash, result_id);
    assert_eq!(w.oracle.battle_result(&result.result_data.battle_id), Some(result_id));
    let developer = w.oracle.developer(1).unwrap();
    assert_eq!(developer.staked_amount, 1100);
    assert_eq!(w.oracle.total_staked(), 1100);
}

#[test]
fn finalize_after_dispute_period() {
    let mut w = new_test_ext();
    let result_id = submitted_result(&mut w);
    w.now = 100;
    assert_eq!(
        finalize(&mut w, 2, result_id),
        Err(DispatchError::Pallet(Error::DisputePeriodNotEnded))
    );
    w.now = 101;
    let before = free_balance(&w, 1);
    assert_eq!(finalize(&mut w, 2, result_id), Ok(()));
    assert_eq!(free_balance(&w, 1) - before, 100);
    assert_eq!(w.oracle.result(&result_id).unwrap().status, ResultStatus::Verified);
    assert_eq!(w.oracle.developer(1).unwrap().staked_amount, 1000);
    assert_eq!(w.oracle.total_staked(), 1000);
    assert_eq!(
        finalize(&mut w, 2, result_id),
        Err(DispatchError::Pallet(Error::ResultStillDisputed))
    );
    assert_eq!(dispute(&mut w, 2, result_id), Err(DispatchError::Pallet(Error::DisputePeriodEnded)));
    assert_eq!(
        finalize(&mut w, 2, [3u8; 32]),
        Err(DispatchError::Pallet(Error::ResultNotFound))
    );
}

#[test]
fn queries_share_revenue_with_the_developer() {
    let mut w = new_test_ext();
    let result_id = submitted_result(&mut w);
    assert_eq!(query(&mut w, 3, result_id), Ok(()));
    assert_eq!(query(&mut w, 3, result_id), Ok(()));
    assert_eq!(w.oracle.pending_revenue(1), 140);
    let result = w.oracle.result(&result_id).unwrap();
    assert_eq!((result.query_count, result.revenue_earned), (2, 140));
    assert_eq!(
        w.oracle.events().last(),
        Some(&Event::DataQueried { result_id, querier: 3, fee: 100, developer_revenue: 70 })
    );
    let before = free_balance(&w, 1);
    assert_eq!(claim(&mut w, 1), Ok(()));
    assert_eq!(free_balance(&w, 1) - before, 140);
    assert_eq!(w.oracle.pending_revenue(1), 0);
    assert_eq!(w.oracle.developer(1).unwrap().total_revenue, 140);
    assert_eq!(claim(&mut w, 1), Err(DispatchError::Pallet(Error::NoRevenueToClaim)));
    assert_eq!(query(&mut w, 3, [5u8; 32]), Err(DispatchError::Pallet(Error::ResultNotFound)));
}

#[test]
fn challenger_wins_dispute() {
    let mut w = new_test_ext();
    let result_id = submitted_result(&mut w);
    w.now = 50;
    assert_eq!(dispute(&mut w, 2, result_id), Ok(()));
    let dispute_id = last_dispute_id(&w);
    assert_eq!(w.oracle.result(&result_id).unwrap().status, ResultStatus::Disputed);
    assert_eq!(
        finalize(&mut w, 3, result_id),
        Err(DispatchError::Pallet(Error::ResultStillDisputed))
    );
    assert_eq!(resolve(&mut w, signed(2), dispute_id, true), Err(DispatchError::BadOrigin));
    let before = free_balance(&w, 2);
    assert_eq!(resolve(&mut w, Origin::Root, dispute_id, true), Ok(()));
    assert_eq!(free_balance(&w, 2) - before, 300);
    let record = w.oracle.dispute(&dispute_id).unwrap();
    assert_eq!(record.outcome, DisputeOutcome::ChallengerWins);
    assert_eq!(record.resolved_at, Some(50));
    assert_eq!(w.oracle.result(&result_id).unwrap().status, ResultStatus::Slashed);
    let developer = w.oracle.developer(1).unwrap();
    assert_eq!(developer.status, DeveloperStatus::Slashed);
    assert_eq!((developer.failed_disputes, developer.staked_amount), (1, 1000));
    assert_eq!(w.oracle.total_staked(), 1000);
    assert_eq!(
        w.oracle.events().last(),
        Some(&Event::DisputeResolved { dispute_id, outcome_id: 2, slashed_amount: 100 })
    );
    let battle_id = create_battle(&mut w);
    assert_eq!(
        submit(&mut w, 1, battle_id, game_name()),
        Err(DispatchError::Pallet(Error::DeveloperNotVerified))
    );
}

#[test]
fn dispute_settled_once() {
    let mut w = new_test_ext();
    let result_id = submitted_result(&mut w);
    assert_eq!(dispute(&mut w, 2, result_id), Ok(()));
    let dispute_id = last_dispute_id(&w);
    assert_eq!(resolve(&mut w, Origin::Root, dispute_id, false), Ok(()));
    assert_eq!(w.oracle.total_staked(), w.oracle.developer(1).unwrap().staked_amount);
    let (oracle_before, balances_before) = (w.oracle.clone(), w.balances.clone());
    for challenger_wins in [false, true] {
        assert_eq!(
            resolve(&mut w, Origin::Root, dispute_id, challenger_wins),
            Err(DispatchError::Pallet(Error::DisputeAlreadyResolved))
        );
        assert_eq!((&w.oracle, &w.balances), (&oracle_before, &balances_before));
    }
    assert_eq!(
        w.oracle.resolve_dispute(Origin::Root, dispute_id, true, w.now, true),
        Err(DispatchError::Pallet(Error::DisputeAlreadyResolved))
    );
    assert_eq!(w.oracle, oracle_before);
    assert_eq!(resolve(&mut w, signed(2), dispute_id, true), Err(DispatchError::BadOrigin));
    assert_eq!(w.oracle.dispute(&dispute_id).unwrap().outcome, DisputeOutcome::DeveloperWins);
}

#[test]
fn developer_wins_dispute() {
    let mut w = new_test_ext();
    let result_id = submitted_result(&mut w);
    assert_eq!(dispute(&mut w, 2, result_id), Ok(()));
    let dispute_id = last_dispute_id(&w);
    let before = free_balance(&w, 1);
    assert_eq!(resolve(&mut w, Origin::Root, dispute_id, false), Ok(()));
    assert_eq!(free_balance(&w, 1) - before, 300);
    assert_eq!(w.oracle.result(&result_id).unwrap().status, ResultStatus::Verified);
    let developer = w.oracle.developer(1).unwrap();
    assert_eq!(developer.status, DeveloperStatus::Verified);
    assert_eq!(developer.successful_disputes, 1);
    assert_eq!(
        w.oracle.events().last(),
        Some(&Event::DisputeResolved { dispute_id, outcome_id: 1, slashed_amount: 0 })
    );
    assert_eq!(
        resolve(&mut w, Origin::Root, [8u8; 32], false),
        Err(DispatchError::Pallet(Error::DisputeNotFound))
    );
}

#[test]
fn status_codes_round_trip() {
    for s in [
        DeveloperStatus::Pending,
        DeveloperStatus::Verified,
        DeveloperStatus::Suspended,
        DeveloperStatus::Slashed,
    ] {
        assert_eq!(DeveloperStatus::from_u8(s.to_u8()), Ok(s));
    }
    for s in [
        ResultStatus::Submitted,
        ResultStatus::Verified,
        ResultStatus::Disputed,
        ResultStatus::Slashed,
    ] {
        assert_eq!(ResultStatus::from_u8(s.to_u8()), Ok(s));
    }
    for s in [DisputeOutcome::Pending, DisputeOutcome::DeveloperWins, DisputeOutcome::ChallengerWins] {
        assert_eq!(DisputeOutcome::from_u8(s.to_u8()), Ok(s));
    }
    assert_eq!(DeveloperStatus::Slashed.to_u8(), 3);
    assert_eq!(DeveloperStatus::from_u8(4), Err(()));
    assert_eq!(ResultStatus::from_u8(4), Err(()));
    assert_eq!(DisputeOutcome::from_u8(3), Err(()));
}
