use battlechain::battlechain::{
    BattleState, CharacterClass, Error, Event, Pallet, StanceType, WildcardType,
};
use battlechain::dispatch::{DispatchError, Origin};

fn signed(who: u64) -> Origin {
    Origin::Signed(who)
}

fn last_offer_id(p: &Pallet) -> [u8; 32] {
    if let Some(Event::BattleOfferCreated { battle_id, .. }) = p.events().last() {
        *battle_id
    } else {
        panic!("Expected BattleOfferCreated event");
    }
}

/// Characters 0 (player 1, warrior) and 1 (player 2, assassin), and a 3-round battle
/// between them started at block 1.
fn started_battle(p: &mut Pallet) -> [u8; 32] {
    assert_eq!(p.create_character(signed(1), 0), Ok(()));
    assert_eq!(p.create_character(signed(2), 1), Ok(()));
    assert_eq!(p.create_battle_offer(signed(1), 0, 100, 3, 1), Ok(()));
    let battle_id = last_offer_id(p);
    assert_eq!(p.accept_battle(signed(2), battle_id, 1, 1), Ok(()));
    battle_id
}

#[test]
fn create_character_works() {
    let mut p = Pallet::new();
    assert_eq!(p.create_character(signed(1), 0), Ok(()));
    assert_eq!(
        p.events().last(),
        Some(&Event::CharacterCreated { owner: 1, character_id: 0, class_id: 0 })
    );
    let character = p.character(0).unwrap();
    assert_eq!(character.owner, 1);
    assert_eq!(character.class_id, 0);
    assert_eq!(character.level, 1);
    assert_eq!(character.wins, 0);
    assert_eq!(character.losses, 0);
}

#[test]
fn create_all_character_classes() {
    let mut p = Pallet::new();
    for class_id in 0..=4 {
        assert_eq!(p.create_character(signed(1), class_id), Ok(()));
    }
    assert_eq!(p.character_count(), 5);
}

#[test]
fn create_character_invalid_class() {
    let mut p = Pallet::new();
    let before = p.clone();
    assert_eq!(
        p.create_character(signed(1), 5),
        Err(DispatchError::Pallet(Error::InvalidCharacterClass))
    );
    assert_eq!(p, before);
    assert_eq!(p.character_count(), 0);
    assert_eq!(p.next_character_id(), 0);
    assert!(p.events().is_empty());
}

#[test]
fn create_battle_offer_works() {
    let mut p = Pallet::new();
    assert_eq!(p.create_character(signed(1), 0), Ok(()));
    assert_eq!(p.create_battle_offer(signed(1), 0, 100, 3, 1), Ok(()));
    assert!(p.offer_count() > 0);
}

#[test]
fn create_battle_offer_invalid_rounds() {
    let mut p = Pallet::new();
    assert_eq!(p.create_character(signed(1), 0), Ok(()));
    let before = p.clone();
    assert_eq!(
        p.create_battle_offer(signed(1), 0, 100, 4, 1),
        Err(DispatchError::Pallet(Error::InvalidRoundCount))
    );
    assert_eq!(p, before);
    assert_eq!(p.offer_count(), 0);
}

#[test]
fn accept_battle_works() {
    let mut p = Pallet::new();
    assert_eq!(p.create_character(signed(1), 0), Ok(()));
    assert_eq!(p.create_character(signed(2), 1), Ok(()));
    assert_eq!(p.create_battle_offer(signed(1), 0, 100, 3, 1), Ok(()));
    let battle_id = last_offer_id(&p);
    assert_eq!(p.accept_battle(signed(2), battle_id, 1, 1), Ok(()));
    let battle = p.battle(&battle_id).unwrap();
    assert_eq!(battle.player1, 1);
    assert_eq!(battle.player2, 2);
    assert_eq!(battle.max_rounds, 3);
    assert_eq!(battle.current_round, 1);
}

#[test]
fn cannot_create_battle_with_self() {
    let mut p = Pallet::new();
    assert_eq!(p.create_character(signed(1), 0), Ok(()));
    assert_eq!(p.create_character(signed(1), 1), Ok(()));
    assert_eq!(p.create_battle_offer(signed(1), 0, 100, 3, 1), Ok(()));
    let battle_id = last_offer_id(&p);
    let before = p.clone();
    assert_eq!(
        p.accept_battle(signed(1), battle_id, 1, 1),
        Err(DispatchError::Pallet(Error::CannotBattleSelf))
    );
    assert_eq!(p, before);
    assert!(p.battle(&battle_id).is_none());
    assert!(p.battle_offer(&battle_id).is_some());
}

#[test]
fn must_own_character_to_create_offer() {
    let mut p = Pallet::new();
    assert_eq!(p.create_character(signed(1), 0), Ok(()));
    let before = p.clone();
    assert_eq!(
        p.create_battle_offer(signed(2), 0, 100, 3, 1),
        Err(DispatchError::Pallet(Error::NotCharacterOwner))
    );
    assert_eq!(p, before);
}

#[test]
fn character_not_found_error() {
    let mut p = Pallet::new();
    let before = p.clone();
    assert_eq!(
        p.create_battle_offer(signed(1), 999, 100, 3, 1),
        Err(DispatchError::Pallet(Error::CharacterNotFound))
    );
    assert_eq!(p, before);
}

#[test]
fn execute_round_works() {
    let mut p = Pallet::new();
    let battle_id = started_battle(&mut p);
    assert_eq!(p.execute_round(signed(1), battle_id, 1), Ok(()));
    let battle = p.battle(&battle_id).unwrap();
    assert!(battle.current_round >= 1);
}

#[test]
fn class_stats_table() {
    let warrior = CharacterClass::Warrior.base_stats();
    assert_eq!((warrior.max_hp, warrior.damage_min, warrior.damage_max), (120, 8, 15));
    assert_eq!((warrior.crit_chance, warrior.dodge_chance, warrior.defense), (1500, 500, 10));
    let tank = CharacterClass::Tank.base_stats();
    assert_eq!((tank.max_hp, tank.damage_min, tank.damage_max, tank.defense), (150, 6, 12, 20));
    assert_eq!(CharacterClass::from_class_id(4), Some(CharacterClass::Trickster));
    assert_eq!(CharacterClass::from_class_id(5), None);
    let mut p = Pallet::new();
    assert_eq!(p.create_character(signed(7), 2), Ok(()));
    let mage = p.character(0).unwrap();
    assert_eq!((mage.max_hp, mage.damage_min, mage.damage_max), (80, 10, 18));
    assert_eq!((mage.xp, mage.mmr), (0, 1000));
    assert_eq!(p.owned_characters(7), vec![0]);
    assert!(p.owned_characters(8).is_empty());
}

#[test]
fn unsigned_origin_is_refused() {
    let mut p = Pallet::new();
    assert_eq!(p.create_character(Origin::Root, 0), Err(DispatchError::BadOrigin));
    assert_eq!(p.create_character(Origin::Unsigned, 0), Err(DispatchError::BadOrigin));
    assert_eq!(p.execute_round(Origin::Unsigned, [0u8; 32], 1), Err(DispatchError::BadOrigin));
}

#[test]
fn too_many_characters() {
    let mut p = Pallet::new();
    for _ in 0..100 {
        assert_eq!(p.create_character(signed(1), 3), Ok(()));
    }
    assert_eq!(
        p.create_character(signed(1), 3),
        Err(DispatchError::Pallet(Error::TooManyCharacters))
    );
    assert_eq!(p.character_count(), 100);
    assert_eq!(p.next_character_id(), 100);
    assert_eq!(p.create_character(signed(2), 3), Ok(()));
}

#[test]
fn offer_and_battle_errors() {
    let mut p = Pallet::new();
    assert_eq!(
        p.accept_battle(signed(2), [9u8; 32], 1, 1),
        Err(DispatchError::Pallet(Error::BattleOfferNotFound))
    );
    assert_eq!(p.create_character(signed(1), 0), Ok(()));
    assert_eq!(p.create_character(signed(2), 1), Ok(()));
    assert_eq!(p.create_battle_offer(signed(1), 0, 100, 5, 1), Ok(()));
    let battle_id = last_offer_id(&p);
    assert_eq!(
        p.accept_battle(signed(2), battle_id, 7, 1),
        Err(DispatchError::Pallet(Error::CharacterNotFound))
    );
    assert_eq!(
        p.accept_battle(signed(3), battle_id, 1, 1),
        Err(DispatchError::Pallet(Error::NotCharacterOwner))
    );
    assert_eq!(
        p.execute_round(signed(1), [9u8; 32], 1),
        Err(DispatchError::Pallet(Error::BattleNotFound))
    );
}

#[test]
fn offers_in_one_block_are_distinct() {
    let mut p = Pallet::new();
    assert_eq!(p.create_character(signed(1), 0), Ok(()));
    assert_eq!(p.create_battle_offer(signed(1), 0, 100, 3, 1), Ok(()));
    let first = last_offer_id(&p);
    assert_eq!(p.create_battle_offer(signed(1), 0, 100, 3, 1), Ok(()));
    let second = last_offer_id(&p);
    assert_ne!(first, second);
    assert_eq!(p.offer_count(), 2);
}

#[test]
fn round_plays_out_from_full_hit_points() {
    // Warrior (120 hp, strikes 11) against assassin (90 hp, strikes 16): three turns,
    // 27 damage each, the warrior ahead on hit points.
    let mut p = Pallet::new();
    let battle_id = started_battle(&mut p);
    assert_eq!(p.execute_round(signed(3), battle_id, 5), Ok(()));
    let result = p.round_result(&battle_id, 1).unwrap();
    assert_eq!(result.turns_executed, 3);
    assert_eq!(result.player1_final_hp, 72);
    assert_eq!(result.player2_final_hp, 57);
    assert_eq!(result.winner, Some(1));
    assert_eq!(result.completed_at, 5);
    let turns: Vec<&Event> = p
        .events()
        .iter()
        .filter(|e| matches!(e, Event::TurnExecuted { .. }))
        .collect();
    assert_eq!(turns.len(), 3);
    assert_eq!(
        turns[2],
        &Event::TurnExecuted { battle_id, round: 1, turn: 3, damage_dealt: 27 }
    );
    let battle = p.battle(&battle_id).unwrap();
    assert_eq!(battle.player1_rounds_won, 1);
    assert_eq!(battle.rounds_completed, 1);
    assert_eq!(battle.current_round, 2);
    assert_eq!(battle.state, BattleState::Active);
    // The next round starts again from full hit points and plays the same way.
    assert_eq!(p.execute_round(signed(3), battle_id, 6), Ok(()));
    let second = p.round_result(&battle_id, 2).unwrap();
    assert_eq!((second.player1_final_hp, second.player2_final_hp), (72, 57));
}

#[test]
fn best_of_three_ends_at_two_wins() {
    let mut p = Pallet::new();
    let battle_id = started_battle(&mut p);
    assert_eq!(p.execute_round(signed(1), battle_id, 2), Ok(()));
    assert_eq!(p.execute_round(signed(1), battle_id, 3), Ok(()));
    let battle = p.battle(&battle_id).unwrap();
    assert_eq!(battle.state, BattleState::Finished);
    assert_eq!(battle.player1_rounds_won, 2);
    assert_eq!(battle.rounds_completed, 2);
    assert_eq!(
        p.events().last(),
        Some(&Event::BattleCompleted { battle_id, winner: Some(1), total_rounds: 2 })
    );
    let winner = p.character(0).unwrap();
    assert_eq!((winner.wins, winner.losses, winner.xp), (1, 0, 100));
    let loser = p.character(1).unwrap();
    assert_eq!((loser.wins, loser.losses, loser.xp), (0, 1, 25));
    assert_eq!(
        p.execute_round(signed(1), battle_id, 4),
        Err(DispatchError::Pallet(Error::BattleNotActive))
    );
}

#[test]
fn level_rounds_end_in_a_draw() {
    // A tank against a tank: every round ends level, so after all three rounds the
    // battle ends without a winner.
    let mut p = Pallet::new();
    assert_eq!(p.create_character(signed(1), 3), Ok(()));
    assert_eq!(p.create_character(signed(2), 3), Ok(()));
    assert_eq!(p.create_battle_offer(signed(1), 0, 0, 3, 1), Ok(()));
    let battle_id = last_offer_id(&p);
    assert_eq!(p.accept_battle(signed(2), battle_id, 1, 1), Ok(()));
    for block in 2..5 {
        assert_eq!(p.execute_round(signed(1), battle_id, block), Ok(()));
    }
    let battle = p.battle(&battle_id).unwrap();
    assert_eq!(battle.state, BattleState::Finished);
    assert_eq!(battle.rounds_completed, 3);
    assert_eq!((battle.player1_rounds_won, battle.player2_rounds_won), (0, 0));
    assert_eq!(
        p.events().last(),
        Some(&Event::BattleCompleted { battle_id, winner: None, total_rounds: 3 })
    );
    assert_eq!(p.character(0).unwrap().losses, 1);
    assert_eq!(p.character(1).unwrap().losses, 1);
}

#[test]
fn unused_kinds_exist() {
    assert_ne!(StanceType::Balanced, StanceType::Counter);
    assert_ne!(WildcardType::Heal, WildcardType::Stun);
}
