//! Rounds-based battles between character NFTs.
//!
//! A battle is best of 3, 5 or 8 rounds. A round is up to three turns executed
//! together; both characters start each round at full hit points, and the round goes
//! to whoever knocks the other out, or else to whoever has more hit points left.

use vstd::prelude::*;
use crate::assoc_map::AssocMap;
use crate::dispatch::{ensure_signed, hash_seed, id_of, signer, DispatchError, HashId, Origin};
use crate::encoding::{encode_u64, le_bytes};

verus! {

/// Character class types.
#[derive(Clone, Copy, Debug, PartialEq, Eq)]
pub enum CharacterClass {
    Warrior,
    Assassin,
    Mage,
    Tank,
    Trickster,
}

/// Battle stance types (affect damage and defense).
#[derive(Clone, Copy, Debug, PartialEq, Eq)]
pub enum StanceType {
    Balanced,
    Aggressive,
    Defensive,
    Berserker,
    Counter,
}

/// Battle state.
#[derive(Clone, Copy, Debug, PartialEq, Eq)]
pub enum BattleState {
    Active,
    Finished,
}

/// Wildcard effect types.
#[derive(Clone, Copy, Debug, PartialEq, Eq)]
pub enum WildcardType {
    DamageBoost,
    Heal,
    Stun,
    NoEffect,
    DoubleDamage,
}

/// The base statistics of a class.
#[derive(Clone, Copy, Debug, PartialEq, Eq)]
pub struct ClassStats {
    pub max_hp: u32,
    pub damage_min: u16,
    pub damage_max: u16,
    pub crit_chance: u16,
    pub dodge_chance: u16,
    pub defense: u16,
}

/// Character NFT data.
#[derive(Clone, Copy, Debug, PartialEq, Eq)]
pub struct Character {
    pub character_id: u64,
    pub owner: u64,
    pub class_id: u8,
    pub max_hp: u32,
    pub damage_min: u16,
    pub damage_max: u16,
    /// Basis points (0-10000).
    pub crit_chance: u16,
    /// Basis points.
    pub dodge_chance: u16,
    pub defense: u16,
    pub level: u16,
    pub xp: u64,
    pub wins: u32,
    pub losses: u32,
    pub mmr: i32,
}

/// The statistics a character fights with during a battle.
#[derive(Clone, Copy, Debug, PartialEq, Eq)]
pub struct BattleCharacter {
    pub character_id: u64,
    pub max_hp: u32,
    pub current_hp: u32,
    pub damage_min: u16,
    pub damage_max: u16,
    pub crit_chance: u16,
    pub dodge_chance: u16,
}

/// The outcome of one round.
#[derive(Clone, Copy, Debug, PartialEq, Eq)]
pub struct RoundResult {
    pub winner: Option<u64>,
    pub turns_executed: u8,
    pub player1_final_hp: u32,
    pub player2_final_hp: u32,
    pub completed_at: u64,
}

/// Battle data.
#[derive(Clone, Copy, Debug, PartialEq, Eq)]
pub struct Battle {
    pub battle_id: HashId,
    pub player1: u64,
    pub player2: u64,
    pub character1_id: u64,
    pub character2_id: u64,
    /// 3, 5 or 8.
    pub max_rounds: u8,
    pub current_round: u8,
    pub rounds_completed: u8,
    pub player1_rounds_won: u8,
    pub player2_rounds_won: u8,
    pub state: BattleState,
    pub stake_amount: u128,
    pub created_at: u64,
}

/// A battle offer: (creator, character id, stake, max rounds).
pub type BattleOffer = (u64, u64, u128, u8);

/// What the pallet reports.
#[derive(Clone, Copy, Debug, PartialEq, Eq)]
pub enum Event {
    CharacterCreated { owner: u64, character_id: u64, class_id: u8 },
    BattleOfferCreated {
        battle_id: HashId,
        creator: u64,
        character_id: u64,
        stake: u128,
        max_rounds: u8,
    },
    BattleStarted { battle_id: HashId, player1: u64, player2: u64, max_rounds: u8 },
    RoundExecuted { battle_id: HashId, round: u8, winner: Option<u64>, turns_executed: u8 },
    BattleCompleted { battle_id: HashId, winner: Option<u64>, total_rounds: u8 },
    TurnExecuted { battle_id: HashId, round: u8, turn: u8, damage_dealt: u64 },
}

/// Errors of the pallet.
#[derive(Clone, Copy, Debug, PartialEq, Eq)]
pub enum Error {
    CharacterNotFound,
    NotCharacterOwner,
    BattleNotFound,
    BattleNotActive,
    InvalidRoundCount,
    RoundAlreadyInProgress,
    MaxRoundsReached,
    CannotBattleSelf,
    TooManyCharacters,
    BattleOfferNotFound,
    InvalidCharacterClass,
}

/// At most this many characters per owner.
pub const MAX_OWNED_CHARACTERS: usize = 100usize;

/// Number of character classes; class ids run from 0 to one less.
pub const CLASS_COUNT: u8 = 5u8;

/// The class with a given id.
pub open spec fn class_of(class_id: u8) -> Option<CharacterClass> {
    if class_id == 0 {
        Some(CharacterClass::Warrior)
    } else if class_id == 1 {
        Some(CharacterClass::Assassin)
    } else if class_id == 2 {
        Some(CharacterClass::Mage)
    } else if class_id == 3 {
        Some(CharacterClass::Tank)
    } else if class_id == 4 {
        Some(CharacterClass::Trickster)
    } else {
        None
    }
}

pub open spec fn stats(
    max_hp: u32,
    damage_min: u16,
    damage_max: u16,
    crit_chance: u16,
    dodge_chance: u16,
    defense: u16,
) -> ClassStats {
    ClassStats { max_hp, damage_min, damage_max, crit_chance, dodge_chance, defense }
}

/// The base statistics of each class.
pub open spec fn class_stats(class: CharacterClass) -> ClassStats {
    match class {
        CharacterClass::Warrior => stats(120, 8, 15, 1500, 500, 10),
        CharacterClass::Assassin => stats(90, 12, 20, 3500, 1500, 5),
        CharacterClass::Mage => stats(80, 10, 18, 2000, 800, 5),
        CharacterClass::Tank => stats(150, 6, 12, 1000, 300, 20),
        CharacterClass::Trickster => stats(100, 8, 16, 2500, 1200, 8),
    }
}

impl CharacterClass {
    /// The class with id `class_id`, where there is one.
    pub fn from_class_id(class_id: u8) -> (r: Option<CharacterClass>)
        ensures
            r == class_of(class_id),
    {
        match class_id {
            0 => Some(CharacterClass::Warrior),
            1 => Some(CharacterClass::Assassin),
            2 => Some(CharacterClass::Mage),
            3 => Some(CharacterClass::Tank),
            4 => Some(CharacterClass::Trickster),
            _ => None,
        }
    }

    /// The base statistics of the class.
    pub fn base_stats(&self) -> (s: ClassStats)
        ensures
            s == class_stats(*self),
    {
        match self {
            CharacterClass::Warrior => ClassStats {
                max_hp: 120,
                damage_min: 8,
                damage_max: 15,
                crit_chance: 1500,
                dodge_chance: 500,
                defense: 10,
            },
            CharacterClass::Assassin => ClassStats {
                max_hp: 90,
                damage_min: 12,
                damage_max: 20,
                crit_chance: 3500,
                dodge_chance: 1500,
                defense: 5,
            },
            CharacterClass::Mage => ClassStats {
                max_hp: 80,
                damage_min: 10,
                damage_max: 18,
                crit_chance: 2000,
                dodge_chance: 800,
                defense: 5,
            },
            CharacterClass::Tank => ClassStats {
                max_hp: 150,
                damage_min: 6,
                damage_max: 12,
                crit_chance: 1000,
                dodge_chance: 300,
                defense: 20,
            },
            CharacterClass::Trickster => ClassStats {
                max_hp: 100,
                damage_min: 8,
                damage_max: 16,
                crit_chance: 2500,
                dodge_chance: 1200,
                defense: 8,
            },
        }
    }
}

/// A fresh character of a class.
pub open spec fn new_character(character_id: u64, owner: u64, class_id: u8) -> Character {
    let s = class_stats(class_of(class_id).unwrap());
    Character {
        character_id,
        owner,
        class_id,
        max_hp: s.max_hp,
        damage_min: s.damage_min,
        damage_max: s.damage_max,
        crit_chance: s.crit_chance,
        dodge_chance: s.dodge_chance,
        defense: s.defense,
        level: 1,
        xp: 0,
        wins: 0,
        losses: 0,
        mmr: 1000,
    }
}

/// The round counts a battle may have.
pub open spec fn valid_round_count(max_rounds: u8) -> bool {
    max_rounds == 3 || max_rounds == 5 || max_rounds == 8
}

/// The seed hashed into the identifier of an offer made by `creator` with `character_id`
/// at block `now`, when `nonce` offers have been made before.
pub open spec fn offer_seed(creator: u64, character_id: u64, now: u64, nonce: u64) -> Seq<u8> {
    le_bytes(creator as nat, 8) + le_bytes(character_id as nat, 8) + le_bytes(now as nat, 8)
        + le_bytes(nonce as nat, 8)
}

/// The next id after `id`, staying at the largest id.
pub open spec fn next_id(id: u64) -> u64 {
    if id < u64::MAX {
        (id + 1) as u64
    } else {
        id
    }
}

/// The statistics a character enters a battle with: full hit points.
pub open spec fn battle_character_of(c: Character) -> BattleCharacter {
    BattleCharacter {
        character_id: c.character_id,
        max_hp: c.max_hp,
        current_hp: c.max_hp,
        damage_min: c.damage_min,
        damage_max: c.damage_max,
        crit_chance: c.crit_chance,
        dodge_chance: c.dodge_chance,
    }
}

/// The battle that starts when `player2` accepts offer `offer` with `character_id`.
pub open spec fn new_battle(
    battle_id: HashId,
    offer: BattleOffer,
    player2: u64,
    character_id: u64,
    now: u64,
) -> Battle {
    Battle {
        battle_id,
        player1: offer.0,
        player2,
        character1_id: offer.1,
        character2_id: character_id,
        max_rounds: offer.3,
        current_round: 1,
        rounds_completed: 0,
        player1_rounds_won: 0,
        player2_rounds_won: 0,
        state: BattleState::Active,
        stake_amount: offer.2,
        created_at: now,
    }
}

/// Hit points one strike of `c` takes: the midpoint of its damage range, rounded down.
pub open spec fn strike(c: BattleCharacter) -> u64 {
    ((c.damage_min + c.damage_max) / 2) as u64
}

/// `hp` less `damage`, stopping at zero.
pub open spec fn hp_after(hp: u32, damage: u64) -> u32 {
    if hp >= damage {
        (hp - damage) as u32
    } else {
        0
    }
}

/// Battle statistics with character `id` back at full hit points (where it has some).
pub open spec fn reset_hp(bc: Map<u64, BattleCharacter>, id: u64) -> Map<u64, BattleCharacter> {
    if bc.contains_key(id) {
        bc.insert(id, BattleCharacter { current_hp: bc[id].max_hp, ..bc[id] })
    } else {
        bc
    }
}

/// One turn: each of the two characters strikes the other at once.
pub open spec fn turn_step(bc: Map<u64, BattleCharacter>, c1: u64, c2: u64) -> Map<
    u64,
    BattleCharacter,
> {
    let a = bc[c1];
    let b = bc[c2];
    bc.insert(c1, BattleCharacter { current_hp: hp_after(a.current_hp, strike(b)), ..a }).insert(
        c2,
        BattleCharacter { current_hp: hp_after(b.current_hp, strike(a)), ..b },
    )
}

/// The damage a turn deals in all.
pub open spec fn turn_damage(bc: Map<u64, BattleCharacter>, c1: u64, c2: u64) -> u64 {
    (strike(bc[c1]) + strike(bc[c2])) as u64
}

/// The turns of a round from turn `turn` on: the statistics after the last turn, the
/// number of that turn, and the damage each turn dealt. The round stops after the third
/// turn, or as soon as a character is down to zero hit points.
pub open spec fn play_turns(bc: Map<u64, BattleCharacter>, c1: u64, c2: u64, turn: nat) -> (
    Map<u64, BattleCharacter>,
    nat,
    Seq<u64>,
)
    decreases 3 - turn,
{
    let next = turn_step(bc, c1, c2);
    let d = turn_damage(bc, c1, c2);
    if turn >= 3 || next[c1].current_hp == 0 || next[c2].current_hp == 0 {
        (next, turn, seq![d])
    } else {
        let rest = play_turns(next, c1, c2, turn + 1);
        (rest.0, rest.1, seq![d] + rest.2)
    }
}

/// The events of turns `first_turn`, `first_turn + 1`, ... that dealt `damages`.
pub open spec fn turn_events(battle_id: HashId, round: u8, first_turn: nat, damages: Seq<u64>) -> Seq<
    Event,
> {
    Seq::new(
        damages.len(),
        |i: int|
            Event::TurnExecuted {
                battle_id,
                round,
                turn: (first_turn + i) as u8,
                damage_dealt: damages[i],
            },
    )
}

/// Who wins a round that ends with `hp1` and `hp2` hit points: the survivor when
/// player 1 or player 2 is down, else whoever has more, else nobody.
pub open spec fn round_winner(b: Battle, hp1: u32, hp2: u32) -> Option<u64> {
    if hp1 == 0 {
        Some(b.player2)
    } else if hp2 == 0 {
        Some(b.player1)
    } else if hp1 > hp2 {
        Some(b.player1)
    } else if hp2 > hp1 {
        Some(b.player2)
    } else {
        None
    }
}

/// `x + 1`, staying at the largest value.
pub open spec fn inc_u8(x: u8) -> u8 {
    if x < u8::MAX {
        (x + 1) as u8
    } else {
        x
    }
}

/// The battle once a round won by `winner` is counted.
pub open spec fn award_round(b: Battle, winner: Option<u64>) -> Battle {
    let b1 = match winner {
        Some(w) => if w == b.player1 {
            Battle { player1_rounds_won: inc_u8(b.player1_rounds_won), ..b }
        } else {
            Battle { player2_rounds_won: inc_u8(b.player2_rounds_won), ..b }
        },
        None => b,
    };
    Battle { rounds_completed: inc_u8(b1.rounds_completed), ..b1 }
}

/// Rounds a player must win to win the battle outright: a majority of `max_rounds`.
pub open spec fn rounds_to_win(max_rounds: u8) -> int {
    max_rounds / 2 + 1
}

/// Whether the battle is over, and who won it: a player with a majority of the rounds,
/// or, once all rounds are played, whoever won more of them (nobody on a tie).
pub open spec fn battle_end(b: Battle) -> (bool, Option<u64>) {
    if b.player1_rounds_won >= rounds_to_win(b.max_rounds) {
        (true, Some(b.player1))
    } else if b.player2_rounds_won >= rounds_to_win(b.max_rounds) {
        (true, Some(b.player2))
    } else if b.rounds_completed >= b.max_rounds {
        (
            true,
            if b.player1_rounds_won > b.player2_rounds_won {
                Some(b.player1)
            } else if b.player2_rounds_won > b.player1_rounds_won {
                Some(b.player2)
            } else {
                None
            },
        )
    } else {
        (false, None)
    }
}

/// A character's record after a battle: 100 experience and a win, or 25 experience and
/// a loss (where the character exists).
pub open spec fn credit(chars: Map<u64, Character>, id: u64, won: bool) -> Map<u64, Character> {
    if chars.contains_key(id) {
        let c = chars[id];
        let xp: u64 = if won { 100 } else { 25 };
        let xp2 = if c.xp + xp <= u64::MAX { (c.xp + xp) as u64 } else { u64::MAX };
        chars.insert(
            id,
            if won {
                Character {
                    xp: xp2,
                    wins: if c.wins < u32::MAX { (c.wins + 1) as u32 } else { c.wins },
                    ..c
                }
            } else {
                Character {
                    xp: xp2,
                    losses: if c.losses < u32::MAX { (c.losses + 1) as u32 } else { c.losses },
                    ..c
                }
            },
        )
    } else {
        chars
    }
}

/// Both fighters' records after a battle won by `winner`.
pub open spec fn credit_both(chars: Map<u64, Character>, b: Battle, winner: Option<u64>) -> Map<
    u64,
    Character,
> {
    credit(
        credit(chars, b.character1_id, winner == Some(b.player1)),
        b.character2_id,
        winner == Some(b.player2),
    )
}

/// Storage after a round of battle `id` at block `now`, for an active battle within its
/// round limit.
pub open spec fn after_round(s: BattleChainView, id: HashId, now: u64) -> BattleChainView {
    let b = s.battles[id];
    let c1 = b.character1_id;
    let c2 = b.character2_id;
    let start = reset_hp(reset_hp(s.battle_characters, c1), c2);
    let played = play_turns(start, c1, c2, 1);
    let hp1 = played.0[c1].current_hp;
    let hp2 = played.0[c2].current_hp;
    let winner = round_winner(b, hp1, hp2);
    let counted = award_round(b, winner);
    let end = battle_end(counted);
    let stored = if end.0 {
        Battle { state: BattleState::Finished, ..counted }
    } else {
        Battle { current_round: inc_u8(counted.current_round), ..counted }
    };
    let round_event = Event::RoundExecuted {
        battle_id: id,
        round: b.current_round,
        winner,
        turns_executed: played.1 as u8,
    };
    let end_events = if end.0 {
        seq![
            Event::BattleCompleted {
                battle_id: id,
                winner: end.1,
                total_rounds: counted.rounds_completed,
            },
        ]
    } else {
        Seq::empty()
    };
    BattleChainView {
        characters: if end.0 {
            credit_both(s.characters, counted, end.1)
        } else {
            s.characters
        },
        battles: s.battles.insert(id, stored),
        battle_characters: played.0,
        round_results: s.round_results.insert(
            (id, b.current_round),
            RoundResult {
                winner,
                turns_executed: played.1 as u8,
                player1_final_hp: hp1,
                player2_final_hp: hp2,
                completed_at: now,
            },
        ),
        events: s.events + turn_events(id, b.current_round, 1, played.2) + seq![round_event]
            + end_events,
        ..s
    }
}

/// A battle's round counts agree with its state: it has 3, 5 or 8 rounds between two
/// different players; no more rounds are won than completed, nor completed than allowed;
/// an active battle is at the round after the last completed one, with nobody at a
/// majority and rounds still to play; a finished battle has a player at a majority or
/// has played all its rounds.
pub open spec fn battle_consistent(b: Battle) -> bool {
    &&& valid_round_count(b.max_rounds)
    &&& b.player1 != b.player2
    &&& b.player1_rounds_won + b.player2_rounds_won <= b.rounds_completed
    &&& b.rounds_completed <= b.max_rounds
    &&& b.state == BattleState::Active ==> {
        &&& b.current_round == b.rounds_completed + 1
        &&& b.player1_rounds_won < rounds_to_win(b.max_rounds)
        &&& b.player2_rounds_won < rounds_to_win(b.max_rounds)
        &&& b.rounds_completed < b.max_rounds
    }
    &&& b.state == BattleState::Finished ==> {
        &&& b.current_round == b.rounds_completed
        &&& (b.player1_rounds_won >= rounds_to_win(b.max_rounds) || b.player2_rounds_won
            >= rounds_to_win(b.max_rounds) || b.rounds_completed >= b.max_rounds)
    }
}

/// Every battle is consistent and every offer asks for 3, 5 or 8 rounds.
pub open spec fn consistent(
    battles: Map<HashId, Battle>,
    battle_offers: Map<HashId, BattleOffer>,
) -> bool {
    &&& forall|id: HashId| #[trigger]
        battles.contains_key(id) ==> battle_consistent(battles[id])
    &&& forall|id: HashId| #[trigger]
        battle_offers.contains_key(id) ==> valid_round_count(battle_offers[id].3)
}

/// The storage of the pallet, as maps.
pub struct BattleChainView {
    pub characters: Map<u64, Character>,
    pub next_character_id: u64,
    pub offer_nonce: u64,
    pub owned_characters: Map<u64, Seq<u64>>,
    pub battles: Map<HashId, Battle>,
    pub battle_characters: Map<u64, BattleCharacter>,
    pub round_results: Map<(HashId, u8), RoundResult>,
    pub battle_offers: Map<HashId, BattleOffer>,
    pub events: Seq<Event>,
}

/// The characters owned by an account (none where it has no entry).
pub open spec fn owned_by(v: BattleChainView, who: u64) -> Seq<u64> {
    if v.owned_characters.contains_key(who) {
        v.owned_characters[who]
    } else {
        Seq::empty()
    }
}

/// Whether a character's damage range can be summed without overflow.
pub open spec fn damage_fits(damage_min: u16, damage_max: u16) -> bool {
    damage_min + damage_max <= u16::MAX
}

/// The battle pallet's storage and event log.
#[derive(Clone, Debug, PartialEq, Eq)]
pub struct Pallet {
    characters: AssocMap<u64, Character>,
    next_character_id: u64,
    offer_nonce: u64,
    owned_characters: AssocMap<u64, Vec<u64>>,
    battles: AssocMap<HashId, Battle>,
    battle_characters: AssocMap<u64, BattleCharacter>,
    round_results: AssocMap<(HashId, u8), RoundResult>,
    battle_offers: AssocMap<HashId, BattleOffer>,
    events: Vec<Event>,
}

impl View for Pallet {
    type V = BattleChainView;

    closed spec fn view(&self) -> BattleChainView {
        BattleChainView {
            characters: self.characters@,
            next_character_id: self.next_character_id,
            offer_nonce: self.offer_nonce,
            owned_characters: Map::new(
                |who: u64| self.owned_characters@.contains_key(who),
                |who: u64| self.owned_characters@[who]@,
            ),
            battles: self.battles@,
            battle_characters: self.battle_characters@,
            round_results: self.round_results@,
            battle_offers: self.battle_offers@,
            events: self.events@,
        }
    }
}

impl Pallet {
    /// The maps are well formed, every character is stored under its own id and its
    /// damage range sums without overflow,
    /// nobody owns more than the maximum of characters, battles and offers are consistent,
    /// every battle is stored under its own id, and both fighters of every active battle
    /// have battle statistics.
    pub closed spec fn wf(&self) -> bool {
        &&& self.characters.wf()
        &&& self.owned_characters.wf()
        &&& self.battles.wf()
        &&& self.battle_characters.wf()
        &&& self.round_results.wf()
        &&& self.battle_offers.wf()
        &&& forall|id: u64| #[trigger]
            self.characters@.contains_key(id) ==> damage_fits(
                self.characters@[id].damage_min,
                self.characters@[id].damage_max,
            ) && self.characters@[id].character_id == id
        &&& forall|id: u64| #[trigger]
            self.battle_characters@.contains_key(id) ==> damage_fits(
                self.battle_characters@[id].damage_min,
                self.battle_characters@[id].damage_max,
            )
        &&& forall|who: u64| #[trigger]
            self.owned_characters@.contains_key(who) ==> self.owned_characters@[who]@.len()
                <= MAX_OWNED_CHARACTERS
        &&& consistent(self.battles@, self.battle_offers@)
        &&& forall|id: HashId| #[trigger]
            self.battles@.contains_key(id) ==> self.battles@[id].battle_id == id
        &&& forall|id: HashId| #[trigger]
            self.battles@.contains_key(id) && self.battles@[id].state == BattleState::Active
                ==> self.battle_characters@.contains_key(self.battles@[id].character1_id)
                && self.battle_characters@.contains_key(self.battles@[id].character2_id)
    }

    /// Empty storage.
    pub fn new() -> (p: Pallet)
        ensures
            p.wf(),
            p@.characters == Map::<u64, Character>::empty(),
            p@.next_character_id == 0,
            p@.offer_nonce == 0,
            p@.owned_characters == Map::<u64, Seq<u64>>::empty(),
            p@.battles == Map::<HashId, Battle>::empty(),
            p@.battle_characters == Map::<u64, BattleCharacter>::empty(),
            p@.round_results == Map::<(HashId, u8), RoundResult>::empty(),
            p@.battle_offers == Map::<HashId, BattleOffer>::empty(),
            p@.events == Seq::<Event>::empty(),
    {
        let p = Pallet {
            characters: AssocMap::new(),
            next_character_id: 0,
            offer_nonce: 0,
            owned_characters: AssocMap::new(),
            battles: AssocMap::new(),
            battle_characters: AssocMap::new(),
            round_results: AssocMap::new(),
            battle_offers: AssocMap::new(),
            events: Vec::new(),
        };
        assert(p@.owned_characters =~= Map::<u64, Seq<u64>>::empty());
        p
    }

    /// The character with id `id`, where there is one.
    pub fn character(&self, id: u64) -> (r: Option<Character>)
        requires
            self.wf(),
        ensures
            r == (if self@.characters.contains_key(id) {
                Some(self@.characters[id])
            } else {
                None
            }),
    {
        match self.characters.get(&id) {
            Some(c) => Some(*c),
            None => None,
        }
    }

    /// Number of characters.
    pub fn character_count(&self) -> (n: usize)
        requires
            self.wf(),
        ensures
            n == self@.characters.dom().len(),
    {
        self.characters.len()
    }

    /// The id the next character gets.
    pub fn next_character_id(&self) -> (n: u64)
        ensures
            n == self@.next_character_id,
    {
        self.next_character_id
    }

    /// The ids of the characters owned by `who`.
    pub fn owned_characters(&self, who: u64) -> (r: Vec<u64>)
        requires
            self.wf(),
        ensures
            r@ == owned_by(self@, who),
    {
        match self.owned_characters.get(&who) {
            Some(v) => v.clone(),
            None => Vec::new(),
        }
    }

    /// The battle with id `id`, where there is one.
    pub fn battle(&self, id: &HashId) -> (r: Option<Battle>)
        requires
            self.wf(),
        ensures
            r == (if self@.battles.contains_key(*id) {
                Some(self@.battles[*id])
            } else {
                None
            }),
    {
        match self.battles.get(id) {
            Some(b) => Some(*b),
            None => None,
        }
    }

    /// The battle statistics of character `id`, where there are some.
    pub fn battle_character(&self, id: u64) -> (r: Option<BattleCharacter>)
        requires
            self.wf(),
        ensures
            r == (if self@.battle_characters.contains_key(id) {
                Some(self@.battle_characters[id])
            } else {
                None
            }),
    {
        match self.battle_characters.get(&id) {
            Some(c) => Some(*c),
            None => None,
        }
    }

    /// The result of round `round` of battle `id`, where there is one.
    pub fn round_result(&self, id: &HashId, round: u8) -> (r: Option<RoundResult>)
        requires
            self.wf(),
        ensures
            r == (if self@.round_results.contains_key((*id, round)) {
                Some(self@.round_results[(*id, round)])
            } else {
                None
            }),
    {
        match self.round_results.get(&(*id, round)) {
            Some(x) => Some(*x),
            None => None,
        }
    }

    /// The battle offer with id `id`, where there is one.
    pub fn battle_offer(&self, id: &HashId) -> (r: Option<BattleOffer>)
        requires
            self.wf(),
        ensures
            r == (if self@.battle_offers.contains_key(*id) {
                Some(self@.battle_offers[*id])
            } else {
                None
            }),
    {
        match self.battle_offers.get(id) {
            Some(o) => Some(*o),
            None => None,
        }
    }

    /// Number of open battle offers.
    pub fn offer_count(&self) -> (n: usize)
        requires
            self.wf(),
        ensures
            n == self@.battle_offers.dom().len(),
    {
        self.battle_offers.len()
    }

    /// The events reported so far, oldest first.
    pub fn events(&self) -> (e: &Vec<Event>)
        ensures
            e@ == self@.events,
    {
        &self.events
    }
    /// Creates a character of class `class_id` for the signer. The character gets the
    /// next id and the class's base statistics at level 1.
    pub fn create_character(&mut self, origin: Origin, class_id: u8) -> (r: Result<
        (),
        DispatchError<Error>,
    >)
        requires
            old(self).wf(),
        ensures
            final(self).wf(),
            match signer(origin) {
                None => r == Err::<(), DispatchError<Error>>(DispatchError::BadOrigin)
                    && final(self)@ == old(self)@,
                Some(who) => if class_id >= CLASS_COUNT {
                    r == Err::<(), DispatchError<Error>>(
                        DispatchError::Pallet(Error::InvalidCharacterClass),
                    ) && final(self)@ == old(self)@
                } else if owned_by(old(self)@, who).len() >= MAX_OWNED_CHARACTERS {
                    r == Err::<(), DispatchError<Error>>(
                        DispatchError::Pallet(Error::TooManyCharacters),
                    ) && final(self)@ == old(self)@
                } else {
                    let id = old(self)@.next_character_id;
                    &&& r is Ok
                    &&& final(self)@ == (BattleChainView {
                        characters: old(self)@.characters.insert(
                            id,
                            new_character(id, who, class_id),
                        ),
                        next_character_id: next_id(id),
                        owned_characters: old(self)@.owned_characters.insert(
                            who,
                            owned_by(old(self)@, who).push(id),
                        ),
                        events: old(self)@.events.push(
                            Event::CharacterCreated { owner: who, character_id: id, class_id },
                        ),
                        ..old(self)@
                    })
                },
            },
    {
        let who = ensure_signed(origin)?;
        let class = match CharacterClass::from_class_id(class_id) {
            Some(c) => c,
            None => {
                return Err(DispatchError::Pallet(Error::InvalidCharacterClass));
            },
        };
        let owned_len = match self.owned_characters.get(&who) {
            Some(v) => v.len(),
            None => 0,
        };
        if owned_len >= MAX_OWNED_CHARACTERS {
            return Err(DispatchError::Pallet(Error::TooManyCharacters));
        }
        let ghost before = self@;
        let character_id = self.next_character_id;
        self.next_character_id = character_id.saturating_add(1);
        let s = class.base_stats();
        let character = Character {
            character_id,
            owner: who,
            class_id,
            max_hp: s.max_hp,
            damage_min: s.damage_min,
            damage_max: s.damage_max,
            crit_chance: s.crit_chance,
            dodge_chance: s.dodge_chance,
            defense: s.defense,
            level: 1,
            xp: 0,
            wins: 0,
            losses: 0,
            mmr: 1000,
        };
        self.characters.insert(character_id, character);
        let mut owned = match self.owned_characters.remove(&who) {
            Some(v) => v,
            None => Vec::new(),
        };
        owned.push(character_id);
        self.owned_characters.insert(who, owned);
        self.events.push(Event::CharacterCreated { owner: who, character_id, class_id });
        proof {
            assert(self@.owned_characters =~= before.owned_characters.insert(
                who,
                owned_by(before, who).push(character_id),
            ));
        }
        Ok(())
    }

    /// Offers a battle of `max_rounds` rounds (3, 5 or 8) with the signer's character
    /// `character_id` and a stake. The offer's id hashes the signer, the character, the
    /// block number `now` and the number of offers made before, so that offers made with
    /// one character in one block stay distinct battles.
    pub fn create_battle_offer(
        &mut self,
        origin: Origin,
        character_id: u64,
        stake: u128,
        max_rounds: u8,
        now: u64,
    ) -> (r: Result<(), DispatchError<Error>>)
        requires
            old(self).wf(),
        ensures
            final(self).wf(),
            match signer(origin) {
                None => r == Err::<(), DispatchError<Error>>(DispatchError::BadOrigin)
                    && final(self)@ == old(self)@,
                Some(who) => if !valid_round_count(max_rounds) {
                    r == Err::<(), DispatchError<Error>>(
                        DispatchError::Pallet(Error::InvalidRoundCount),
                    ) && final(self)@ == old(self)@
                } else if !old(self)@.characters.contains_key(character_id) {
                    r == Err::<(), DispatchError<Error>>(
                        DispatchError::Pallet(Error::CharacterNotFound),
                    ) && final(self)@ == old(self)@
                } else if old(self)@.characters[character_id].owner != who {
                    r == Err::<(), DispatchError<Error>>(
                        DispatchError::Pallet(Error::NotCharacterOwner),
                    ) && final(self)@ == old(self)@
                } else {
                    let id = id_of(
                        offer_seed(who, character_id, now, old(self)@.offer_nonce),
                    );
                    &&& r is Ok
                    &&& final(self)@ == (BattleChainView {
                        offer_nonce: next_id(old(self)@.offer_nonce),
                        battle_offers: old(self)@.battle_offers.insert(
                            id,
                            (who, character_id, stake, max_rounds),
                        ),
                        events: old(self)@.events.push(
                            Event::BattleOfferCreated {
                                battle_id: id,
                                creator: who,
                                character_id,
                                stake,
                                max_rounds,
                            },
                        ),
                        ..old(self)@
                    })
                },
            },
    {
        let who = ensure_signed(origin)?;
        if !(max_rounds == 3 || max_rounds == 5 || max_rounds == 8) {
            return Err(DispatchError::Pallet(Error::InvalidRoundCount));
        }
        let owner = match self.characters.get(&character_id) {
            Some(c) => c.owner,
            None => {
                return Err(DispatchError::Pallet(Error::CharacterNotFound));
            },
        };
        if owner != who {
            return Err(DispatchError::Pallet(Error::NotCharacterOwner));
        }
        let mut seed = encode_u64(who);
        let mut part = encode_u64(character_id);
        seed.append(&mut part);
        let mut part = encode_u64(now);
        seed.append(&mut part);
        let mut part = encode_u64(self.offer_nonce);
        seed.append(&mut part);
        let battle_id = hash_seed(&seed);
        self.offer_nonce = self.offer_nonce.saturating_add(1);
        self.battle_offers.insert(battle_id, (who, character_id, stake, max_rounds));
        self.events.push(
            Event::BattleOfferCreated { battle_id, creator: who, character_id, stake, max_rounds },
        );
        Ok(())
    }

    /// The signer accepts offer `battle_id` with character `character_id`: the battle
    /// starts at round 1 and both characters enter it at full hit points.
    pub fn accept_battle(
        &mut self,
        origin: Origin,
        battle_id: HashId,
        character_id: u64,
        now: u64,
    ) -> (r: Result<(), DispatchError<Error>>)
        requires
            old(self).wf(),
        ensures
            final(self).wf(),
            match signer(origin) {
                None => r == Err::<(), DispatchError<Error>>(DispatchError::BadOrigin)
                    && final(self)@ == old(self)@,
                Some(who) => {
                    let s = old(self)@;
                    let offer = s.battle_offers[battle_id];
                    if !s.battle_offers.contains_key(battle_id) {
                        r == Err::<(), DispatchError<Error>>(
                            DispatchError::Pallet(Error::BattleOfferNotFound),
                        ) && final(self)@ == s
                    } else if who == offer.0 {
                        r == Err::<(), DispatchError<Error>>(
                            DispatchError::Pallet(Error::CannotBattleSelf),
                        ) && final(self)@ == s
                    } else if !s.characters.contains_key(character_id) {
                        r == Err::<(), DispatchError<Error>>(
                            DispatchError::Pallet(Error::CharacterNotFound),
                        ) && final(self)@ == s
                    } else if s.characters[character_id].owner != who {
                        r == Err::<(), DispatchError<Error>>(
                            DispatchError::Pallet(Error::NotCharacterOwner),
                        ) && final(self)@ == s
                    } else if !s.characters.contains_key(offer.1) {
                        r == Err::<(), DispatchError<Error>>(
                            DispatchError::Pallet(Error::CharacterNotFound),
                        ) && final(self)@ == s
                    } else {
                        &&& r is Ok
                        &&& final(self)@ == (BattleChainView {
                            battles: s.battles.insert(
                                battle_id,
                                new_battle(battle_id, offer, who, character_id, now),
                            ),
                            battle_offers: s.battle_offers.remove(battle_id),
                            battle_characters: s.battle_characters.insert(
                                offer.1,
                                battle_character_of(s.characters[offer.1]),
                            ).insert(character_id, battle_character_of(s.characters[character_id])),
                            events: s.events.push(
                                Event::BattleStarted {
                                    battle_id,
                                    player1: offer.0,
                                    player2: who,
                                    max_rounds: offer.3,
                                },
                            ),
                            ..s
                        })
                    }
                },
            },
    {
        let who = ensure_signed(origin)?;
        let offer = match self.battle_offers.get(&battle_id) {
            Some(o) => *o,
            None => {
                return Err(DispatchError::Pallet(Error::BattleOfferNotFound));
            },
        };
        let (creator, creator_char_id, stake, max_rounds) = offer;
        if who == creator {
            return Err(DispatchError::Pallet(Error::CannotBattleSelf));
        }
        let char2 = match self.characters.get(&character_id) {
            Some(c) => *c,
            None => {
                return Err(DispatchError::Pallet(Error::CharacterNotFound));
            },
        };
        if char2.owner != who {
            return Err(DispatchError::Pallet(Error::NotCharacterOwner));
        }
        let char1 = match self.characters.get(&creator_char_id) {
            Some(c) => *c,
            None => {
                return Err(DispatchError::Pallet(Error::CharacterNotFound));
            },
        };
        let battle = Battle {
            battle_id,
            player1: creator,
            player2: who,
            character1_id: creator_char_id,
            character2_id: character_id,
            max_rounds,
            current_round: 1,
            rounds_completed: 0,
            player1_rounds_won: 0,
            player2_rounds_won: 0,
            state: BattleState::Active,
            stake_amount: stake,
            created_at: now,
        };
        self.battles.insert(battle_id, battle);
        self.battle_offers.remove(&battle_id);
        self.initialize_battle_characters(&char1, &char2);
        self.events.push(
            Event::BattleStarted { battle_id, player1: creator, player2: who, max_rounds },
        );
        Ok(())
    }

    /// Enters two characters into battle at full hit points.
    fn initialize_battle_characters(&mut self, char1: &Character, char2: &Character)
        requires
            old(self).battle_characters.wf(),
            damage_fits(char1.damage_min, char1.damage_max),
            damage_fits(char2.damage_min, char2.damage_max),
        ensures
            final(self).battle_characters.wf(),
            final(self).battle_characters@ == old(self).battle_characters@.insert(
                char1.character_id,
                battle_character_of(*char1),
            ).insert(char2.character_id, battle_character_of(*char2)),
            final(self).characters == old(self).characters,
            final(self).next_character_id == old(self).next_character_id,
            final(self).offer_nonce == old(self).offer_nonce,
            final(self).owned_characters == old(self).owned_characters,
            final(self).battles == old(self).battles,
            final(self).round_results == old(self).round_results,
            final(self).battle_offers == old(self).battle_offers,
            final(self).events == old(self).events,
    {
        self.battle_characters.insert(
            char1.character_id,
            BattleCharacter {
                character_id: char1.character_id,
                max_hp: char1.max_hp,
                current_hp: char1.max_hp,
                damage_min: char1.damage_min,
                damage_max: char1.damage_max,
                crit_chance: char1.crit_chance,
                dodge_chance: char1.dodge_chance,
            },
        );
        self.battle_characters.insert(
            char2.character_id,
            BattleCharacter {
                character_id: char2.character_id,
                max_hp: char2.max_hp,
                current_hp: char2.max_hp,
                damage_min: char2.damage_min,
                damage_max: char2.damage_max,
                crit_chance: char2.crit_chance,
                dodge_chance: char2.dodge_chance,
            },
        );
    }
    /// Plays the next round of battle `battle_id` at block `now`: both characters start
    /// at full hit points and fight up to three turns; the round is recorded, and the
    /// battle ends once a player has won a majority of its rounds or all are played.
    pub fn execute_round(&mut self, origin: Origin, battle_id: HashId, now: u64) -> (r: Result<
        (),
        DispatchError<Error>,
    >)
        requires
            old(self).wf(),
        ensures
            final(self).wf(),
            match signer(origin) {
                None => r == Err::<(), DispatchError<Error>>(DispatchError::BadOrigin)
                    && final(self)@ == old(self)@,
                Some(_) => {
                    let s = old(self)@;
                    let b = s.battles[battle_id];
                    if !s.battles.contains_key(battle_id) {
                        r == Err::<(), DispatchError<Error>>(
                            DispatchError::Pallet(Error::BattleNotFound),
                        ) && final(self)@ == s
                    } else if b.state != BattleState::Active {
                        r == Err::<(), DispatchError<Error>>(
                            DispatchError::Pallet(Error::BattleNotActive),
                        ) && final(self)@ == s
                    } else if b.current_round > b.max_rounds {
                        r == Err::<(), DispatchError<Error>>(
                            DispatchError::Pallet(Error::MaxRoundsReached),
                        ) && final(self)@ == s
                    } else {
                        r is Ok && final(self)@ == after_round(s, battle_id, now)
                    }
                },
            },
    {
        let _who = ensure_signed(origin)?;
        let battle = match self.battles.get(&battle_id) {
            Some(b) => *b,
            None => {
                return Err(DispatchError::Pallet(Error::BattleNotFound));
            },
        };
        match battle.state {
            BattleState::Active => {},
            BattleState::Finished => {
                return Err(DispatchError::Pallet(Error::BattleNotActive));
            },
        }
        if battle.current_round > battle.max_rounds {
            return Err(DispatchError::Pallet(Error::MaxRoundsReached));
        }
        let ghost s = self@;
        let c1 = battle.character1_id;
        let c2 = battle.character2_id;
        let round = battle.current_round;
        self.reset_characters_for_round(c1, c2);
        let turns_executed = self.play_turns(&battle, round, 1);
        let hp1 = match self.battle_characters.get(&c1) {
            Some(c) => c.current_hp,
            None => 0,
        };
        let hp2 = match self.battle_characters.get(&c2) {
            Some(c) => c.current_hp,
            None => 0,
        };
        let winner = if hp1 == 0 {
            Some(battle.player2)
        } else if hp2 == 0 {
            Some(battle.player1)
        } else if hp1 > hp2 {
            Some(battle.player1)
        } else if hp2 > hp1 {
            Some(battle.player2)
        } else {
            None
        };
        let mut battle = battle;
        match winner {
            Some(w) => {
                if w == battle.player1 {
                    battle.player1_rounds_won = battle.player1_rounds_won.saturating_add(1);
                } else {
                    battle.player2_rounds_won = battle.player2_rounds_won.saturating_add(1);
                }
            },
            None => {},
        }
        battle.rounds_completed = battle.rounds_completed.saturating_add(1);
        self.round_results.insert(
            (battle_id, round),
            RoundResult {
                winner,
                turns_executed,
                player1_final_hp: hp1,
                player2_final_hp: hp2,
                completed_at: now,
            },
        );
        self.events.push(
            Event::RoundExecuted { battle_id, round, winner, turns_executed },
        );
        let rounds_to_win = battle.max_rounds / 2 + 1;
        let mut battle_complete = false;
        let mut battle_winner: Option<u64> = None;
        if battle.player1_rounds_won >= rounds_to_win {
            battle_winner = Some(battle.player1);
            battle_complete = true;
        } else if battle.player2_rounds_won >= rounds_to_win {
            battle_winner = Some(battle.player2);
            battle_complete = true;
        } else if battle.rounds_completed >= battle.max_rounds {
            if battle.player1_rounds_won > battle.player2_rounds_won {
                battle_winner = Some(battle.player1);
            } else if battle.player2_rounds_won > battle.player1_rounds_won {
                battle_winner = Some(battle.player2);
            }
            battle_complete = true;
        }
        if battle_complete {
            battle.state = BattleState::Finished;
            self.events.push(
                Event::BattleCompleted {
                    battle_id,
                    winner: battle_winner,
                    total_rounds: battle.rounds_completed,
                },
            );
            self.update_characters_after_battle(&battle, battle_winner);
        } else {
            battle.current_round = battle.current_round.saturating_add(1);
        }
        self.battles.insert(battle_id, battle);
        proof {
            assert(self@.events =~= after_round(s, battle_id, now).events);
            assert(self@.battle_characters =~= after_round(s, battle_id, now).battle_characters);
        }
        Ok(())
    }

    /// Puts both characters back at full hit points (where they have battle statistics).
    fn reset_characters_for_round(&mut self, c1: u64, c2: u64)
        requires
            old(self).wf(),
        ensures
            final(self).wf(),
            final(self).battle_characters@ == reset_hp(
                reset_hp(old(self).battle_characters@, c1),
                c2,
            ),
            final(self).characters == old(self).characters,
            final(self).next_character_id == old(self).next_character_id,
            final(self).offer_nonce == old(self).offer_nonce,
            final(self).owned_characters == old(self).owned_characters,
            final(self).battles == old(self).battles,
            final(self).round_results == old(self).round_results,
            final(self).battle_offers == old(self).battle_offers,
            final(self).events == old(self).events,
    {
        match self.battle_characters.get(&c1) {
            Some(c) => {
                let c = *c;
                self.battle_characters.insert(c1, BattleCharacter { current_hp: c.max_hp, ..c });
            },
            None => {},
        }
        match self.battle_characters.get(&c2) {
            Some(c) => {
                let c = *c;
                self.battle_characters.insert(c2, BattleCharacter { current_hp: c.max_hp, ..c });
            },
            None => {},
        }
    }

    /// Plays the turns of the current round from turn `turn` on and returns the number of
    /// the last turn played.
    fn play_turns(&mut self, battle: &Battle, round: u8, turn: u8) -> (last: u8)
        requires
            old(self).wf(),
            1 <= turn <= 3,
            old(self).battle_characters@.contains_key(battle.character1_id),
            old(self).battle_characters@.contains_key(battle.character2_id),
        ensures
            final(self).wf(),
            ({
                let p = play_turns(
                    old(self).battle_characters@,
                    battle.character1_id,
                    battle.character2_id,
                    turn as nat,
                );
                &&& final(self).battle_characters@ == p.0
                &&& last as nat == p.1
                &&& final(self).events@ == old(self).events@ + turn_events(
                    battle.battle_id,
                    round,
                    turn as nat,
                    p.2,
                )
            }),
            turn <= last <= 3,
            final(self).battle_characters@.contains_key(battle.character1_id),
            final(self).battle_characters@.contains_key(battle.character2_id),
            final(self).characters == old(self).characters,
            final(self).next_character_id == old(self).next_character_id,
            final(self).offer_nonce == old(self).offer_nonce,
            final(self).owned_characters == old(self).owned_characters,
            final(self).battles == old(self).battles,
            final(self).round_results == old(self).round_results,
            final(self).battle_offers == old(self).battle_offers,
        decreases 3 - turn,
    {
        let ghost bc = self.battle_characters@;
        let ghost ev = self.events@;
        let damage_dealt = self.execute_turn(battle);
        self.events.push(
            Event::TurnExecuted { battle_id: battle.battle_id, round, turn, damage_dealt },
        );
        let hp1 = match self.battle_characters.get(&battle.character1_id) {
            Some(c) => c.current_hp,
            None => 0,
        };
        let hp2 = match self.battle_characters.get(&battle.character2_id) {
            Some(c) => c.current_hp,
            None => 0,
        };
        if turn >= 3 || hp1 == 0 || hp2 == 0 {
            proof {
                assert(self.events@ =~= ev + turn_events(
                    battle.battle_id,
                    round,
                    turn as nat,
                    seq![damage_dealt],
                ));
            }
            turn
        } else {
            let ghost mid = self.events@;
            let last = self.play_turns(battle, round, turn + 1);
            proof {
                let rest = play_turns(
                    turn_step(bc, battle.character1_id, battle.character2_id),
                    battle.character1_id,
                    battle.character2_id,
                    turn as nat + 1,
                );
                assert(self.events@ =~= ev + turn_events(
                    battle.battle_id,
                    round,
                    turn as nat,
                    seq![damage_dealt] + rest.2,
                ));
            }
            last
        }
    }

    /// One turn: each character strikes the other at once. Returns the damage dealt in all.
    fn execute_turn(&mut self, battle: &Battle) -> (damage: u64)
        requires
            old(self).wf(),
            old(self).battle_characters@.contains_key(battle.character1_id),
            old(self).battle_characters@.contains_key(battle.character2_id),
        ensures
            final(self).wf(),
            final(self).battle_characters@ == turn_step(
                old(self).battle_characters@,
                battle.character1_id,
                battle.character2_id,
            ),
            damage == turn_damage(
                old(self).battle_characters@,
                battle.character1_id,
                battle.character2_id,
            ),
            final(self).characters == old(self).characters,
            final(self).next_character_id == old(self).next_character_id,
            final(self).offer_nonce == old(self).offer_nonce,
            final(self).owned_characters == old(self).owned_characters,
            final(self).battles == old(self).battles,
            final(self).round_results == old(self).round_results,
            final(self).battle_offers == old(self).battle_offers,
            final(self).events == old(self).events,
    {
        let mut char1 = match self.battle_characters.get(&battle.character1_id) {
            Some(c) => *c,
            None => {
                return 0;
            },
        };
        let mut char2 = match self.battle_characters.get(&battle.character2_id) {
            Some(c) => *c,
            None => {
                return 0;
            },
        };
        let damage1 = ((char1.damage_min + char1.damage_max) as u64) / 2;
        let damage2 = ((char2.damage_min + char2.damage_max) as u64) / 2;
        char2.current_hp = char2.current_hp.saturating_sub(damage1 as u32);
        char1.current_hp = char1.current_hp.saturating_sub(damage2 as u32);
        self.battle_characters.insert(battle.character1_id, char1);
        self.battle_characters.insert(battle.character2_id, char2);
        damage1.saturating_add(damage2)
    }

    /// Counts the finished battle in both characters' records.
    fn update_characters_after_battle(&mut self, battle: &Battle, winner: Option<u64>)
        requires
            old(self).wf(),
        ensures
            final(self).wf(),
            final(self).characters@ == credit_both(old(self).characters@, *battle, winner),
            final(self).next_character_id == old(self).next_character_id,
            final(self).offer_nonce == old(self).offer_nonce,
            final(self).owned_characters == old(self).owned_characters,
            final(self).battles == old(self).battles,
            final(self).battle_characters == old(self).battle_characters,
            final(self).round_results == old(self).round_results,
            final(self).battle_offers == old(self).battle_offers,
            final(self).events == old(self).events,
    {
        let won1 = match winner {
            Some(w) => w == battle.player1,
            None => false,
        };
        self.credit_character(battle.character1_id, won1);
        let won2 = match winner {
            Some(w) => w == battle.player2,
            None => false,
        };
        self.credit_character(battle.character2_id, won2);
    }

    /// Counts a battle in one character's record: experience, and a win or a loss.
    fn credit_character(&mut self, id: u64, won: bool)
        requires
            old(self).wf(),
        ensures
            final(self).wf(),
            final(self).characters@ == credit(old(self).characters@, id, won),
            final(self).next_character_id == old(self).next_character_id,
            final(self).offer_nonce == old(self).offer_nonce,
            final(self).owned_characters == old(self).owned_characters,
            final(self).battles == old(self).battles,
            final(self).battle_characters == old(self).battle_characters,
            final(self).round_results == old(self).round_results,
            final(self).battle_offers == old(self).battle_offers,
            final(self).events == old(self).events,
    {
        match self.characters.get(&id) {
            Some(c) => {
                let mut c = *c;
                let xp: u64 = if won { 100 } else { 25 };
                c.xp = c.xp.saturating_add(xp);
                if won {
                    c.wins = c.wins.saturating_add(1);
                } else {
                    c.losses = c.losses.saturating_add(1);
                }
                self.characters.insert(id, c);
            },
            None => {},
        }
    }
}

/// Every state the pallet's operations reach from empty storage is consistent: no battle
/// has more rounds than it allows, none keeps going once decided, and every offer asks
/// for 3, 5 or 8 rounds.
pub proof fn lemma_reachable_states_consistent(p: &Pallet)
    requires
        p.wf(),
    ensures
        consistent(p@.battles, p@.battle_offers),
{
}

/// An active, consistent battle always has a round left to play, so playing it never
/// meets the round limit.
pub proof fn lemma_active_battle_has_round_left(b: Battle)
    requires
        battle_consistent(b),
        b.state == BattleState::Active,
    ensures
        1 <= b.current_round <= b.max_rounds,
{
}

/// A round lasts one to three turns.
pub proof fn lemma_round_turns(bc: Map<u64, BattleCharacter>, c1: u64, c2: u64)
    ensures
        1 <= play_turns(bc, c1, c2, 1).1 <= 3,
        play_turns(bc, c1, c2, 1).2.len() == play_turns(bc, c1, c2, 1).1,
{
    lemma_turns_from(bc, c1, c2, 1);
}

proof fn lemma_turns_from(bc: Map<u64, BattleCharacter>, c1: u64, c2: u64, turn: nat)
    requires
        1 <= turn <= 3,
    ensures
        turn <= play_turns(bc, c1, c2, turn).1 <= 3,
        play_turns(bc, c1, c2, turn).2.len() == play_turns(bc, c1, c2, turn).1 - turn + 1,
    decreases 3 - turn,
{
    let next = turn_step(bc, c1, c2);
    if !(turn >= 3 || next[c1].current_hp == 0 || next[c2].current_hp == 0) {
        lemma_turns_from(next, c1, c2, turn + 1);
    }
}

/// Hit points `hp` less `turns` strikes of `damage` each, stopping at zero.
pub open spec fn worn_down(hp: int, turns: int, damage: int) -> int {
    if hp >= turns * damage {
        hp - turns * damage
    } else {
        0
    }
}

proof fn lemma_turns_wear_down(bc: Map<u64, BattleCharacter>, c1: u64, c2: u64, turn: nat)
    requires
        1 <= turn <= 3,
        bc.contains_key(c1),
        bc.contains_key(c2),
        c1 != c2,
    ensures
        ({
            let r = play_turns(bc, c1, c2, turn);
            let n = r.1 - turn + 1;
            let h1 = bc[c1].current_hp as int;
            let h2 = bc[c2].current_hp as int;
            let d1 = strike(bc[c2]) as int;
            let d2 = strike(bc[c1]) as int;
            &&& turn <= r.1 <= 3
            &&& r.0.contains_key(c1) && r.0.contains_key(c2)
            &&& r.0[c1].current_hp == worn_down(h1, n, d1)
            &&& r.0[c2].current_hp == worn_down(h2, n, d2)
            &&& r.1 < 3 ==> r.0[c1].current_hp == 0 || r.0[c2].current_hp == 0
            &&& forall|j: int|
                1 <= j < n ==> #[trigger] worn_down(h1, j, d1) > 0 && worn_down(h2, j, d2) > 0
        }),
    decreases 3 - turn,
{
    let next = turn_step(bc, c1, c2);
    let h1 = bc[c1].current_hp as int;
    let h2 = bc[c2].current_hp as int;
    let d1 = strike(bc[c2]) as int;
    let d2 = strike(bc[c1]) as int;
    assert(strike(next[c2]) == strike(bc[c2]) && strike(next[c1]) == strike(bc[c1]));
    if turn >= 3 || next[c1].current_hp == 0 || next[c2].current_hp == 0 {
        assert(1 * d1 == d1 && 1 * d2 == d2);
    } else {
        lemma_turns_wear_down(next, c1, c2, turn + 1);
        let r = play_turns(next, c1, c2, turn + 1);
        let m = r.1 - turn;
        assert(next[c1].current_hp == h1 - d1);
        assert(next[c2].current_hp == h2 - d2);
        assert(m * d1 + d1 == (m + 1) * d1 && m * d2 + d2 == (m + 1) * d2) by (nonlinear_arith);
        assert forall|j: int| 1 <= j < m + 1 implies #[trigger] worn_down(h1, j, d1) > 0
            && worn_down(h2, j, d2) > 0 by {
            if j > 1 {
                assert((j - 1) * d1 + d1 == j * d1 && (j - 1) * d2 + d2 == j * d2)
                    by (nonlinear_arith);
                assert(worn_down(h1 - d1, j - 1, d1) > 0 && worn_down(h2 - d2, j - 1, d2) > 0);
            } else {
                assert(1 * d1 == d1 && 1 * d2 == d2);
            }
        }
    }
}

/// A round wears both fighters down from full hit points at a steady rate: every turn,
/// each loses the midpoint of the other's damage range (rounded down), stopping at zero.
/// The round lasts three turns unless a fighter is down sooner, and then it stops at
/// the first turn that leaves one down: after every earlier turn both still stand.
pub proof fn lemma_round_hit_points(bc: Map<u64, BattleCharacter>, c1: u64, c2: u64)
    requires
        bc.contains_key(c1),
        bc.contains_key(c2),
        c1 != c2,
    ensures
        ({
            let played = play_turns(reset_hp(reset_hp(bc, c1), c2), c1, c2, 1);
            let turns = played.1 as int;
            let h1 = bc[c1].max_hp as int;
            let h2 = bc[c2].max_hp as int;
            let d1 = (bc[c2].damage_min + bc[c2].damage_max) / 2;
            let d2 = (bc[c1].damage_min + bc[c1].damage_max) / 2;
            &&& 1 <= turns <= 3
            &&& played.0[c1].current_hp == worn_down(h1, turns, d1)
            &&& played.0[c2].current_hp == worn_down(h2, turns, d2)
            &&& turns < 3 ==> played.0[c1].current_hp == 0 || played.0[c2].current_hp == 0
            &&& forall|j: int|
                1 <= j < turns ==> #[trigger] worn_down(h1, j, d1) > 0 && worn_down(h2, j, d2)
                > 0
        }),
{
    let start = reset_hp(reset_hp(bc, c1), c2);
    assert(start[c1].current_hp == bc[c1].max_hp && start[c2].current_hp == bc[c2].max_hp);
    lemma_turns_wear_down(start, c1, c2, 1);
}

/// Each round starts with both fighters at full hit points, whatever they had left.
pub proof fn lemma_round_starts_at_full_hp(bc: Map<u64, BattleCharacter>, c1: u64, c2: u64)
    requires
        bc.contains_key(c1),
        bc.contains_key(c2),
    ensures
        reset_hp(reset_hp(bc, c1), c2)[c1].current_hp == bc[c1].max_hp,
        reset_hp(reset_hp(bc, c1), c2)[c2].current_hp == bc[c2].max_hp,
{
}

/// A round goes to the fighter left standing with more hit points: player 2 where player
/// 1 ends it with fewer, player 1 where player 2 does, nobody where both stand level, and
/// player 2 where both are down. The winner's count of rounds won goes up by one, the
/// other's stays, and one more round is completed.
pub proof fn lemma_round_goes_to_healthier_fighter(s: BattleChainView, id: HashId, now: u64)
    requires
        s.battles.contains_key(id),
        battle_consistent(s.battles[id]),
        s.battles[id].state == BattleState::Active,
    ensures
        ({
            let b = s.battles[id];
            let v = after_round(s, id, now);
            let rr = v.round_results[(id, b.current_round)];
            let hp1 = rr.player1_final_hp;
            let hp2 = rr.player2_final_hp;
            let c = v.battles[id];
            &&& v.round_results.contains_key((id, b.current_round))
            &&& hp1 < hp2 ==> rr.winner == Some(b.player2)
                && c.player2_rounds_won == b.player2_rounds_won + 1
                && c.player1_rounds_won == b.player1_rounds_won
            &&& hp2 < hp1 ==> rr.winner == Some(b.player1)
                && c.player1_rounds_won == b.player1_rounds_won + 1
                && c.player2_rounds_won == b.player2_rounds_won
            &&& 0 < hp1 == hp2 ==> rr.winner is None
                && c.player1_rounds_won == b.player1_rounds_won
                && c.player2_rounds_won == b.player2_rounds_won
            &&& hp1 == 0 && hp2 == 0 ==> rr.winner == Some(b.player2)
                && c.player2_rounds_won == b.player2_rounds_won + 1
                && c.player1_rounds_won == b.player1_rounds_won
            &&& rr.winner is None <==> 0 < hp1 == hp2
            &&& c.rounds_completed == b.rounds_completed + 1
        }),
{
}

/// A battle ends with the round in which a player has won a majority of its rounds or
/// its last round is played, and not before; it then goes to whoever won more rounds
/// (nobody on a tie). The winner's character gains a win and 100 experience, the other
/// fighter's character a loss and 25 experience. A battle that goes on moves to its next
/// round, and no character's record changes.
pub proof fn lemma_battle_ends_on_majority_or_last_round(s: BattleChainView, id: HashId, now: u64)
    requires
        s.battles.contains_key(id),
        battle_consistent(s.battles[id]),
        s.battles[id].state == BattleState::Active,
    ensures
        ({
            let b = s.battles[id];
            let v = after_round(s, id, now);
            let c = v.battles[id];
            let winner = if c.player1_rounds_won > c.player2_rounds_won {
                Some(b.player1)
            } else if c.player2_rounds_won > c.player1_rounds_won {
                Some(b.player2)
            } else {
                None
            };
            &&& c.state == BattleState::Finished <==> (2 * c.player1_rounds_won > b.max_rounds || 2
                * c.player2_rounds_won > b.max_rounds || c.rounds_completed == b.max_rounds)
            &&& c.state == BattleState::Active ==> c.current_round == b.current_round + 1
                && v.characters == s.characters
            &&& c.state == BattleState::Finished ==> v.events.last() == (Event::BattleCompleted {
                battle_id: id,
                winner,
                total_rounds: c.rounds_completed,
            })
            &&& c.state == BattleState::Finished && b.character1_id != b.character2_id
                ==> credited(s.characters, v.characters, b.character1_id, winner == Some(b.player1))
                && credited(s.characters, v.characters, b.character2_id, winner == Some(b.player2))
        }),
{
    let b = s.battles[id];
    let v = after_round(s, id, now);
    let c1 = b.character1_id;
    let c2 = b.character2_id;
    let start = reset_hp(reset_hp(s.battle_characters, c1), c2);
    let played = play_turns(start, c1, c2, 1);
    let counted = award_round(b, round_winner(b, played.0[c1].current_hp, played.0[c2].current_hp));
    let end = battle_end(counted);
    if end.0 {
        let ev = Event::BattleCompleted { battle_id: id, winner: end.1, total_rounds: counted.rounds_completed };
        let pre = s.events + turn_events(id, b.current_round, 1, played.2) + seq![
            Event::RoundExecuted {
                battle_id: id,
                round: b.current_round,
                winner: round_winner(b, played.0[c1].current_hp, played.0[c2].current_hp),
                turns_executed: played.1 as u8,
            },
        ];
        assert(v.events == pre + seq![ev]);
        assert((pre + seq![ev]).last() == ev);
    }
}

/// Character `id`'s record in `after` is its record in `before` with a win and 100
/// experience where `won`, else a loss and 25 experience (counters stopping at their
/// largest values); nothing else about it changes.
pub open spec fn credited(before: Map<u64, Character>, after: Map<u64, Character>, id: u64, won: bool) -> bool {
    before.contains_key(id) ==> {
        let c = before[id];
        let d = after[id];
        &&& after.contains_key(id)
        &&& d.xp == vstd::math::min(c.xp as int + (if won {
            100int
        } else {
            25int
        }), u64::MAX as int)
        &&& won && c.wins < u32::MAX ==> d.wins == c.wins + 1 && d.losses == c.losses
        &&& !won && c.losses < u32::MAX ==> d.losses == c.losses + 1 && d.wins == c.wins
        &&& d.max_hp == c.max_hp && d.owner == c.owner && d.level == c.level && d.mmr == c.mmr
    }
}

/// Each class id from 0 to 4 names a class, and a character created with it carries
/// that class's fixed statistics, at level 1 with no experience, no record and an MMR
/// of 1000:
///
/// | id | class     | hit points | damage | crit | dodge | defense |
/// |----|-----------|------------|--------|------|-------|---------|
/// | 0  | Warrior   | 120        | 8-15   | 1500 | 500   | 10      |
/// | 1  | Assassin  | 90         | 12-20  | 3500 | 1500  | 5       |
/// | 2  | Mage      | 80         | 10-18  | 2000 | 800   | 5       |
/// | 3  | Tank      | 150        | 6-12   | 1000 | 300   | 20      |
/// | 4  | Trickster | 100        | 8-16   | 2500 | 1200  | 8       |
pub proof fn lemma_class_table(character_id: u64, owner: u64, class_id: u8)
    ensures
        class_of(class_id) is Some <==> class_id < CLASS_COUNT,
        class_id < CLASS_COUNT ==> ({
            let c = new_character(character_id, owner, class_id);
            let row = seq![
                (120u32, 8u16, 15u16, 1500u16, 500u16, 10u16),
                (90u32, 12u16, 20u16, 3500u16, 1500u16, 5u16),
                (80u32, 10u16, 18u16, 2000u16, 800u16, 5u16),
                (150u32, 6u16, 12u16, 1000u16, 300u16, 20u16),
                (100u32, 8u16, 16u16, 2500u16, 1200u16, 8u16),
            ][class_id as int];
            &&& (c.max_hp, c.damage_min, c.damage_max, c.crit_chance, c.dodge_chance, c.defense)
                == row
            &&& c.character_id == character_id && c.owner == owner && c.class_id == class_id
            &&& c.level == 1 && c.xp == 0 && c.wins == 0 && c.losses == 0 && c.mmr == 1000
        }),
{
}

/// A decided battle goes to the player who won more of its rounds: counting a round of
/// a consistent active battle, the battle's winner (if any) has won strictly more rounds
/// than the other player, and a battle that ends without a winner ends level.
pub proof fn lemma_battle_winner_won_more_rounds(b: Battle, round_winner: Option<u64>)
    requires
        battle_consistent(b),
        b.state == BattleState::Active,
    ensures
        ({
            let c = award_round(b, round_winner);
            let end = battle_end(c);
            &&& end.1 == Some(b.player1) ==> c.player1_rounds_won > c.player2_rounds_won
            &&& end.1 == Some(b.player2) ==> c.player2_rounds_won > c.player1_rounds_won
            &&& end.0 && end.1 is None ==> c.player1_rounds_won == c.player2_rounds_won
        }),
{
}

} // verus!
