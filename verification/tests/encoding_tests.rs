use battlechain::battlechain::{Event as BattleEvent, Pallet as Battles};
use battlechain::dispatch::{derive_id, hash_seed, pallet_account, Origin};
use battlechain::game_oracle::{Config, Event, Pallet};

fn scale<T: parity_scale_codec::Encode>(x: &T) -> Vec<u8> {
    parity_scale_codec::Encode::encode(x)
}

fn blake2(data: &[u8]) -> [u8; 32] {
    <sp_runtime::traits::BlakeTwo256 as sp_runtime::traits::Hash>::hash(data).0
}

fn signed(who: u64) -> Origin {
    Origin::Signed(who)
}

#[test]
fn offer_id_hashes_the_encoded_seed() {
    let mut p = Battles::new();
    assert_eq!(p.create_character(signed(1), 0), Ok(()));
    assert_eq!(p.create_battle_offer(signed(1), 0, 100, 3, 1), Ok(()));
    let expected = blake2(&scale(&(1u64, 0u64, 1u64, 0u64)));
    assert_eq!(
        p.events().last(),
        Some(&BattleEvent::BattleOfferCreated {
            battle_id: expected,
            creator: 1,
            character_id: 0,
            stake: 100,
            max_rounds: 3,
        })
    );
}

#[test]
fn derived_ids_hash_id_account_and_block() {
    let id = [3u8; 32];
    let expected = blake2(&scale(&(id, 7u64, 9u64)));
    assert_eq!(derive_id(&id, 7, 9), expected);
    assert_eq!(hash_seed(&vec![]), blake2(&[]));
    assert_eq!(&hash_seed(&vec![])[..4], &[0x0e, 0x57, 0x51, 0xc0]);
    assert_ne!(hash_seed(&vec![1u8]), hash_seed(&vec![]));
}

#[test]
fn pallet_accounts_read_the_seed_little_endian() {
    assert_eq!(pallet_account(*b"gameorac"), u64::from_le_bytes(*b"modlgame"));
    assert_eq!(pallet_account(*b"predmrkt"), u64::from_le_bytes(*b"modlpred"));
}

#[test]
fn result_data_hash_covers_the_encoded_result() {
    let mut battles = Battles::new();
    let mut oracle = Pallet::new(Config {
        pallet_id: *b"gameorac",
        provider_rev_share_bps: 7000,
        query_fee: 100,
        developer_stake: 1000,
        result_stake: 100,
        dispute_period: 100,
        dispute_stake: 200,
    });
    assert_eq!(oracle.register_developer(signed(1), b"TestGame".to_vec(), 1, true), Ok(()));
    assert_eq!(oracle.verify_developer(Origin::Root, 1), Ok(()));
    assert_eq!(battles.create_character(signed(1), 0), Ok(()));
    assert_eq!(battles.create_character(signed(4), 1), Ok(()));
    assert_eq!(battles.create_battle_offer(signed(1), 0, 100, 3, 1), Ok(()));
    let battle_id = match battles.events().last() {
        Some(BattleEvent::BattleOfferCreated { battle_id, .. }) => *battle_id,
        _ => panic!("Expected BattleOfferCreated event"),
    };
    assert_eq!(battles.accept_battle(signed(4), battle_id, 1, 1), Ok(()));
    let ext = vec![1u8; 70];
    assert_eq!(
        oracle.submit_result(
            &battles,
            signed(1),
            battle_id,
            Some(1),
            1,
            4,
            3,
            2,
            3,
            b"TestGame".to_vec(),
            258,
            ext.clone(),
            12,
            true,
        ),
        Ok(())
    );
    let result_id = match oracle.events().last() {
        Some(Event::ResultSubmitted { result_id, .. }) => *result_id,
        _ => panic!("Expected ResultSubmitted event"),
    };
    assert_eq!(result_id, blake2(&scale(&(battle_id, 1u64, 12u64))));
    let encoded = scale(&(
        battle_id,
        Some(1u64),
        1u64,
        4u64,
        3u32,
        2u32,
        3u8,
        12u64,
        b"TestGame".to_vec(),
        258u32,
        ext,
    ));
    let result = oracle.result(&result_id).unwrap();
    assert_eq!(result.data_hash, blake2(&encoded));
    assert_eq!(result.dispute_deadline, 112);
}
