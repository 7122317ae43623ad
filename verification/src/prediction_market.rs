//! Prediction markets on battle outcomes.
//!
//! A market opens for an active battle and takes bets on player 1 winning, player 2
//! winning, or a draw; it is locked when the battle starts, and resolved from the rounds
//! each player won once the battle is finished. Winners share the whole pool, less the
//! platform fee, in proportion to their bets.

use vstd::prelude::*;
use crate::assoc_map::AssocMap;
use crate::battlechain;
use crate::dispatch::{
    account_of,
    derive_id,
    derived_seed,
    ensure_signed,
    id_of,
    pallet_account,
    signer,
    DispatchError,
    HashId,
    Origin,
    Transfer,
};
use crate::per_thing::{
    mul_floor_parts,
    permill_from_rational,
    permill_mul_floor,
    rational_parts,
    PERMILL_ACCURACY,
};

verus! {

/// Market outcome type.
#[derive(Clone, Copy, Debug, PartialEq, Eq)]
pub enum MarketOutcome {
    Player1Wins,
    Player2Wins,
    Draw,
}

impl MarketOutcome {
    pub open spec fn code(self) -> u8 {
        match self {
            MarketOutcome::Player1Wins => 0,
            MarketOutcome::Player2Wins => 1,
            MarketOutcome::Draw => 2,
        }
    }

    pub open spec fn of_code(value: u8) -> Result<MarketOutcome, ()> {
        if value == 0 {
            Ok(MarketOutcome::Player1Wins)
        } else if value == 1 {
            Ok(MarketOutcome::Player2Wins)
        } else if value == 2 {
            Ok(MarketOutcome::Draw)
        } else {
            Err(())
        }
    }

    pub fn to_u8(&self) -> (r: u8)
        ensures
            r == self.code(),
    {
        match self {
            MarketOutcome::Player1Wins => 0,
            MarketOutcome::Player2Wins => 1,
            MarketOutcome::Draw => 2,
        }
    }

    pub fn from_u8(value: u8) -> (r: Result<MarketOutcome, ()>)
        ensures
            r == MarketOutcome::of_code(value),
    {
        match value {
            0 => Ok(MarketOutcome::Player1Wins),
            1 => Ok(MarketOutcome::Player2Wins),
            2 => Ok(MarketOutcome::Draw),
            _ => Err(()),
        }
    }
}

/// Market state.
#[derive(Clone, Copy, Debug, PartialEq, Eq)]
pub enum MarketState {
    Open,
    Locked,
    Resolved,
    Cancelled,
}

impl MarketState {
    pub open spec fn code(self) -> u8 {
        match self {
            MarketState::Open => 0,
            MarketState::Locked => 1,
            MarketState::Resolved => 2,
            MarketState::Cancelled => 3,
        }
    }

    pub open spec fn of_code(value: u8) -> Result<MarketState, ()> {
        if value == 0 {
            Ok(MarketState::Open)
        } else if value == 1 {
            Ok(MarketState::Locked)
        } else if value == 2 {
            Ok(MarketState::Resolved)
        } else if value == 3 {
            Ok(MarketState::Cancelled)
        } else {
            Err(())
        }
    }

    pub fn to_u8(&self) -> (r: u8)
        ensures
            r == self.code(),
    {
        match self {
            MarketState::Open => 0,
            MarketState::Locked => 1,
            MarketState::Resolved => 2,
            MarketState::Cancelled => 3,
        }
    }

    pub fn from_u8(value: u8) -> (r: Result<MarketState, ()>)
        ensures
            r == MarketState::of_code(value),
    {
        match value {
            0 => Ok(MarketState::Open),
            1 => Ok(MarketState::Locked),
            2 => Ok(MarketState::Resolved),
            3 => Ok(MarketState::Cancelled),
            _ => Err(()),
        }
    }
}

/// Each code decodes back to its outcome or state, and exactly their codes decode. The
/// codes number the variants in the order they are declared, from 0.
pub proof fn lemma_market_codes_round_trip(o: MarketOutcome, st: MarketState, value: u8)
    ensures
        MarketOutcome::of_code(o.code()) == Ok::<MarketOutcome, ()>(o),
        MarketState::of_code(st.code()) == Ok::<MarketState, ()>(st),
        MarketOutcome::of_code(value) is Ok <==> value < 3,
        MarketState::of_code(value) is Ok <==> value < 4,
        MarketOutcome::of_code(value) matches Ok(x) ==> x.code() == value,
        MarketState::of_code(value) matches Ok(x) ==> x.code() == value,
        seq![MarketOutcome::Player1Wins, MarketOutcome::Player2Wins, MarketOutcome::Draw][o.code() as int]
            == o,
        seq![
            MarketState::Open,
            MarketState::Locked,
            MarketState::Resolved,
            MarketState::Cancelled,
        ][st.code() as int] == st,
{
}

/// Prediction market data.
#[derive(Clone, Copy, Debug, PartialEq, Eq)]
pub struct PredictionMarket {
    pub market_id: HashId,
    pub battle_id: HashId,
    pub creator: u64,
    /// 0 = open, 1 = locked, 2 = resolved, 3 = cancelled.
    pub state_id: u8,
    pub total_pool: u128,
    pub player1_pool: u128,
    pub player2_pool: u128,
    pub draw_pool: u128,
    /// 0 = player 1 wins, 1 = player 2 wins, 2 = draw.
    pub outcome_id: Option<u8>,
    pub created_at: u64,
    pub resolve_block: Option<u64>,
}

/// An individual prediction (bet).
#[derive(Clone, Copy, Debug, PartialEq, Eq)]
pub struct Prediction {
    pub predictor: u64,
    pub market_id: HashId,
    /// 0 = player 1 wins, 1 = player 2 wins, 2 = draw.
    pub outcome_id: u8,
    pub amount: u128,
    pub claimed: bool,
}

/// The pallet's parameters.
#[derive(Clone, Copy, Debug, PartialEq, Eq)]
pub struct Config {
    /// Identifies the account that holds the pallet's funds.
    pub pallet_id: [u8; 8],
    /// Platform fee in basis points (200 = 2%).
    pub platform_fee_bps: u16,
}

/// What the pallet reports.
#[derive(Clone, Copy, Debug, PartialEq, Eq)]
pub enum Event {
    MarketCreated { market_id: HashId, battle_id: HashId, creator: u64 },
    PredictionPlaced { market_id: HashId, predictor: u64, outcome_id: u8, amount: u128 },
    MarketLocked { market_id: HashId },
    MarketResolved { market_id: HashId, outcome_id: u8, total_pool: u128 },
    WinningsClaimed { market_id: HashId, predictor: u64, payout: u128 },
}

/// Errors of the pallet.
#[derive(Clone, Copy, Debug, PartialEq, Eq)]
pub enum Error {
    MarketNotFound,
    MarketNotOpen,
    MarketAlreadyExists,
    BattleNotFound,
    PredictionNotFound,
    AlreadyClaimed,
    MarketNotResolved,
    NoWinnings,
    InsufficientBalance,
    BattleNotFinished,
    MarketNotLocked,
    InvalidOutcome,
}

/// Basis points in a whole.
pub const BPS_WHOLE: u128 = 10000u128;

/// The fee the platform keeps of a pool of `total`: `bps / 10000` of it as a `Permill`,
/// rounded down.
pub open spec fn platform_fee(fee_bps: u16, total: u128) -> u128 {
    mul_floor_parts(
        rational_parts(fee_bps as nat, BPS_WHOLE as nat, PERMILL_ACCURACY as nat),
        PERMILL_ACCURACY as nat,
        total as nat,
    ) as u128
}

/// A winner's payout: their bet times the pool less the fee, divided by the winning
/// outcome's pool (the product saturating at the largest balance).
pub open spec fn payout(amount: u128, winning_pool: u128, total: u128, fee_bps: u16) -> u128 {
    let after_fee = total.saturating_sub(platform_fee(fee_bps, total));
    let product = if amount * after_fee <= u128::MAX {
        (amount * after_fee) as u128
    } else {
        u128::MAX
    };
    (product / winning_pool) as u128
}

/// The pool of an outcome in a market.
pub open spec fn pool_of(m: PredictionMarket, outcome: MarketOutcome) -> u128 {
    match outcome {
        MarketOutcome::Player1Wins => m.player1_pool,
        MarketOutcome::Player2Wins => m.player2_pool,
        MarketOutcome::Draw => m.draw_pool,
    }
}

/// The market once a bet of `amount` on `outcome` is added to its pools.
pub open spec fn place_bet(m: PredictionMarket, outcome: MarketOutcome, amount: u128) -> PredictionMarket {
    let m1 = PredictionMarket { total_pool: m.total_pool.saturating_add(amount), ..m };
    match outcome {
        MarketOutcome::Player1Wins => PredictionMarket {
            player1_pool: m1.player1_pool.saturating_add(amount),
            ..m1
        },
        MarketOutcome::Player2Wins => PredictionMarket {
            player2_pool: m1.player2_pool.saturating_add(amount),
            ..m1
        },
        MarketOutcome::Draw => PredictionMarket { draw_pool: m1.draw_pool.saturating_add(amount), ..m1 },
    }
}

/// The outcome of a finished battle: whoever won more rounds, else a draw.
pub open spec fn battle_outcome(b: battlechain::Battle) -> MarketOutcome {
    if b.player1_rounds_won > b.player2_rounds_won {
        MarketOutcome::Player1Wins
    } else if b.player2_rounds_won > b.player1_rounds_won {
        MarketOutcome::Player2Wins
    } else {
        MarketOutcome::Draw
    }
}

/// The storage of the pallet, as maps.
pub struct MarketView {
    pub config: Config,
    pub markets: Map<HashId, PredictionMarket>,
    pub predictions: Map<(HashId, u64), Prediction>,
    pub battle_markets: Map<HashId, HashId>,
    pub events: Seq<Event>,
}

/// Why a market cannot be used where it must be in state `required` (which is reported
/// as `wrong_state`), if it cannot.
pub open spec fn market_check(s: MarketView, market_id: HashId, required: MarketState, wrong_state: Error) -> Option<
    Error,
> {
    if !s.markets.contains_key(market_id) {
        Some(Error::MarketNotFound)
    } else if MarketState::of_code(s.markets[market_id].state_id) is Err {
        Some(Error::MarketNotFound)
    } else if MarketState::of_code(s.markets[market_id].state_id) != Ok::<MarketState, ()>(
        required,
    ) {
        Some(wrong_state)
    } else {
        None
    }
}

/// The transfer that a bet of `amount` on outcome `outcome_id` asks for, or why it fails.
pub open spec fn place_plan(
    s: MarketView,
    origin: Origin,
    market_id: HashId,
    outcome_id: u8,
    amount: u128,
) -> Result<Transfer, DispatchError<Error>> {
    match signer(origin) {
        None => Err(DispatchError::BadOrigin),
        Some(who) => if MarketOutcome::of_code(outcome_id) is Err {
            Err(DispatchError::Pallet(Error::InvalidOutcome))
        } else if market_check(s, market_id, MarketState::Open, Error::MarketNotOpen) is Some {
            Err(
                DispatchError::Pallet(
                    market_check(s, market_id, MarketState::Open, Error::MarketNotOpen).unwrap(),
                ),
            )
        } else {
            Ok(Transfer { from: who, to: account_of(s.config.pallet_id), amount, keep_alive: true })
        },
    }
}

/// The transfer that claiming the signer's winnings in market `market_id` asks for (the
/// payout), or why it fails.
pub open spec fn claim_plan(s: MarketView, origin: Origin, market_id: HashId) -> Result<
    Transfer,
    DispatchError<Error>,
> {
    match signer(origin) {
        None => Err(DispatchError::BadOrigin),
        Some(who) => {
            let m = s.markets[market_id];
            let p = s.predictions[(market_id, who)];
            if market_check(s, market_id, MarketState::Resolved, Error::MarketNotResolved) is Some {
                Err(
                    DispatchError::Pallet(
                        market_check(
                            s,
                            market_id,
                            MarketState::Resolved,
                            Error::MarketNotResolved,
                        ).unwrap(),
                    ),
                )
            } else if !s.predictions.contains_key((market_id, who)) {
                Err(DispatchError::Pallet(Error::PredictionNotFound))
            } else if p.claimed {
                Err(DispatchError::Pallet(Error::AlreadyClaimed))
            } else if m.outcome_id is None {
                Err(DispatchError::Pallet(Error::MarketNotResolved))
            } else if p.outcome_id != m.outcome_id.unwrap() {
                Err(DispatchError::Pallet(Error::NoWinnings))
            } else if MarketOutcome::of_code(m.outcome_id.unwrap()) is Err {
                Err(DispatchError::Pallet(Error::InvalidOutcome))
            } else if pool_of(m, MarketOutcome::of_code(m.outcome_id.unwrap()).unwrap()) == 0 {
                Err(DispatchError::Pallet(Error::NoWinnings))
            } else {
                Ok(
                    Transfer {
                        from: account_of(s.config.pallet_id),
                        to: who,
                        amount: payout(
                            p.amount,
                            pool_of(m, MarketOutcome::of_code(m.outcome_id.unwrap()).unwrap()),
                            m.total_pool,
                            s.config.platform_fee_bps,
                        ),
                        keep_alive: false,
                    },
                )
            }
        },
    }
}

/// A market's codes are those of a state it can reach, and it has an outcome exactly
/// when it is resolved.
pub open spec fn market_valid(m: PredictionMarket) -> bool {
    &&& m.state_id <= MarketState::Resolved.code()
    &&& (m.state_id == MarketState::Resolved.code() <==> m.outcome_id is Some)
    &&& m.outcome_id matches Some(o) ==> o < 3
}

/// Every market is valid, and every prediction and every battle's market refers to a
/// stored market; every prediction is on a valid outcome.
pub open spec fn markets_consistent(
    markets: Map<HashId, PredictionMarket>,
    predictions: Map<(HashId, u64), Prediction>,
    battle_markets: Map<HashId, HashId>,
) -> bool {
    &&& forall|id: HashId| #[trigger] markets.contains_key(id) ==> market_valid(markets[id])
    &&& forall|k: (HashId, u64)| #[trigger]
        predictions.contains_key(k) ==> markets.contains_key(k.0) && predictions[k].outcome_id < 3
    &&& forall|b: HashId| #[trigger]
        battle_markets.contains_key(b) ==> markets.contains_key(battle_markets[b])
}

/// The prediction market pallet's storage and event log.
#[derive(Clone, Debug, PartialEq, Eq)]
pub struct Pallet {
    config: Config,
    markets: AssocMap<HashId, PredictionMarket>,
    predictions: AssocMap<(HashId, u64), Prediction>,
    battle_markets: AssocMap<HashId, HashId>,
    events: Vec<Event>,
}

impl View for Pallet {
    type V = MarketView;

    closed spec fn view(&self) -> MarketView {
        MarketView {
            config: self.config,
            markets: self.markets@,
            predictions: self.predictions@,
            battle_markets: self.battle_markets@,
            events: self.events@,
        }
    }
}

impl Pallet {
    /// The maps are well formed and consistent.
    pub closed spec fn wf(&self) -> bool {
        &&& self.markets.wf()
        &&& self.predictions.wf()
        &&& self.battle_markets.wf()
        &&& markets_consistent(self.markets@, self.predictions@, self.battle_markets@)
    }

    /// Empty storage with parameters `config`.
    pub fn new(config: Config) -> (p: Pallet)
        ensures
            p.wf(),
            p@ == (MarketView {
                config,
                markets: Map::empty(),
                predictions: Map::empty(),
                battle_markets: Map::empty(),
                events: Seq::empty(),
            }),
    {
        Pallet {
            config,
            markets: AssocMap::new(),
            predictions: AssocMap::new(),
            battle_markets: AssocMap::new(),
            events: Vec::new(),
        }
    }

    /// The account that holds the pallet's funds.
    pub fn account_id(&self) -> (a: u64)
        ensures
            a == account_of(self@.config.pallet_id),
    {
        pallet_account(self.config.pallet_id)
    }

    /// The market with id `id`, where there is one.
    pub fn market(&self, id: &HashId) -> (r: Option<PredictionMarket>)
        requires
            self.wf(),
        ensures
            r == (if self@.markets.contains_key(*id) {
                Some(self@.markets[*id])
            } else {
                None
            }),
    {
        match self.markets.get(id) {
            Some(m) => Some(*m),
            None => None,
        }
    }

    /// The prediction of `who` in market `id`, where there is one.
    pub fn prediction(&self, id: &HashId, who: u64) -> (r: Option<Prediction>)
        requires
            self.wf(),
        ensures
            r == (if self@.predictions.contains_key((*id, who)) {
                Some(self@.predictions[(*id, who)])
            } else {
                None
            }),
    {
        match self.predictions.get(&(*id, who)) {
            Some(p) => Some(*p),
            None => None,
        }
    }

    /// The market opened for battle `battle_id`, where there is one.
    pub fn battle_market(&self, battle_id: &HashId) -> (r: Option<HashId>)
        requires
            self.wf(),
        ensures
            r == (if self@.battle_markets.contains_key(*battle_id) {
                Some(self@.battle_markets[*battle_id])
            } else {
                None
            }),
    {
        match self.battle_markets.get(battle_id) {
            Some(h) => Some(*h),
            None => None,
        }
    }

    /// The events reported so far, oldest first.
    pub fn events(&self) -> (e: &Vec<Event>)
        ensures
            e@ == self@.events,
    {
        &self.events
    }

    /// The state of market `market_id`, checked to be `required` (else `wrong_state`).
    fn check_market(&self, market_id: &HashId, required: MarketState, wrong_state: Error) -> (r:
        Result<PredictionMarket, DispatchError<Error>>)
        requires
            self.wf(),
        ensures
            match market_check(self@, *market_id, required, wrong_state) {
                Some(e) => r == Err::<PredictionMarket, DispatchError<Error>>(
                    DispatchError::Pallet(e),
                ),
                None => r == Ok::<PredictionMarket, DispatchError<Error>>(
                    self@.markets[*market_id],
                ),
            },
    {
        let market = match self.markets.get(market_id) {
            Some(m) => *m,
            None => {
                return Err(DispatchError::Pallet(Error::MarketNotFound));
            },
        };
        let state = match MarketState::from_u8(market.state_id) {
            Ok(st) => st,
            Err(_) => {
                return Err(DispatchError::Pallet(Error::MarketNotFound));
            },
        };
        let matches_required = match (state, required) {
            (MarketState::Open, MarketState::Open) => true,
            (MarketState::Locked, MarketState::Locked) => true,
            (MarketState::Resolved, MarketState::Resolved) => true,
            (MarketState::Cancelled, MarketState::Cancelled) => true,
            _ => false,
        };
        if !matches_required {
            return Err(DispatchError::Pallet(wrong_state));
        }
        Ok(market)
    }
    /// The signer opens a market on active battle `battle_id` at block `now`. The market's
    /// id hashes the battle, the signer and the block; a battle has at most one market.
    pub fn create_market(
        &mut self,
        battles: &battlechain::Pallet,
        origin: Origin,
        battle_id: HashId,
        now: u64,
    ) -> (r: Result<(), DispatchError<Error>>)
        requires
            old(self).wf(),
            battles.wf(),
        ensures
            final(self).wf(),
            match signer(origin) {
                None => r == Err::<(), DispatchError<Error>>(DispatchError::BadOrigin)
                    && final(self)@ == old(self)@,
                Some(who) => {
                    let s = old(self)@;
                    if !battles@.battles.contains_key(battle_id) {
                        r == Err::<(), DispatchError<Error>>(
                            DispatchError::Pallet(Error::BattleNotFound),
                        ) && final(self)@ == s
                    } else if battles@.battles[battle_id].state != battlechain::BattleState::Active {
                        r == Err::<(), DispatchError<Error>>(
                            DispatchError::Pallet(Error::BattleNotFinished),
                        ) && final(self)@ == s
                    } else if s.battle_markets.contains_key(battle_id) {
                        r == Err::<(), DispatchError<Error>>(
                            DispatchError::Pallet(Error::MarketAlreadyExists),
                        ) && final(self)@ == s
                    } else {
                        let market_id = id_of(derived_seed(battle_id, who, now));
                        &&& r is Ok
                        &&& final(self)@ == (MarketView {
                            markets: s.markets.insert(
                                market_id,
                                PredictionMarket {
                                    market_id,
                                    battle_id,
                                    creator: who,
                                    state_id: 0,
                                    total_pool: 0,
                                    player1_pool: 0,
                                    player2_pool: 0,
                                    draw_pool: 0,
                                    outcome_id: None,
                                    created_at: now,
                                    resolve_block: None,
                                },
                            ),
                            battle_markets: s.battle_markets.insert(battle_id, market_id),
                            events: s.events.push(
                                Event::MarketCreated { market_id, battle_id, creator: who },
                            ),
                            ..s
                        })
                    }
                },
            },
    {
        let who = ensure_signed(origin)?;
        let battle = match battles.battle(&battle_id) {
            Some(b) => b,
            None => {
                return Err(DispatchError::Pallet(Error::BattleNotFound));
            },
        };
        match battle.state {
            battlechain::BattleState::Active => {},
            _ => {
                return Err(DispatchError::Pallet(Error::BattleNotFinished));
            },
        }
        if self.battle_markets.contains_key(&battle_id) {
            return Err(DispatchError::Pallet(Error::MarketAlreadyExists));
        }
        let market_id = derive_id(&battle_id, who, now);
        let open = MarketState::Open.to_u8();
        self.markets.insert(
            market_id,
            PredictionMarket {
                market_id,
                battle_id,
                creator: who,
                state_id: open,
                total_pool: 0,
                player1_pool: 0,
                player2_pool: 0,
                draw_pool: 0,
                outcome_id: None,
                created_at: now,
                resolve_block: None,
            },
        );
        self.battle_markets.insert(battle_id, market_id);
        self.events.push(Event::MarketCreated { market_id, battle_id, creator: who });
        Ok(())
    }

    /// The transfer that `place_prediction` asks for, or why it fails.
    pub fn plan_place_prediction(
        &self,
        origin: Origin,
        market_id: &HashId,
        outcome_id: u8,
        amount: u128,
    ) -> (r: Result<Transfer, DispatchError<Error>>)
        requires
            self.wf(),
        ensures
            r == place_plan(self@, origin, *market_id, outcome_id, amount),
    {
        let who = ensure_signed(origin)?;
        if MarketOutcome::from_u8(outcome_id).is_err() {
            return Err(DispatchError::Pallet(Error::InvalidOutcome));
        }
        self.check_market(market_id, MarketState::Open, Error::MarketNotOpen)?;
        Ok(Transfer { from: who, to: self.account_id(), amount, keep_alive: true })
    }

    /// The signer bets `amount` on outcome `outcome_id` (0: player 1 wins, 1: player 2
    /// wins, 2: draw) in open market `market_id`, once the stake is paid. The bet joins
    /// the pools and replaces any earlier prediction of the signer in that market.
    pub fn place_prediction(
        &mut self,
        origin: Origin,
        market_id: HashId,
        outcome_id: u8,
        amount: u128,
        paid: bool,
    ) -> (r: Result<(), DispatchError<Error>>)
        requires
            old(self).wf(),
        ensures
            final(self).wf(),
            match place_plan(old(self)@, origin, market_id, outcome_id, amount) {
                Err(e) => r == Err::<(), DispatchError<Error>>(e) && final(self)@ == old(self)@,
                Ok(t) => if !paid {
                    r == Err::<(), DispatchError<Error>>(DispatchError::TransferFailed)
                        && final(self)@ == old(self)@
                } else {
                    let s = old(self)@;
                    &&& r is Ok
                    &&& final(self)@ == (MarketView {
                        markets: s.markets.insert(
                            market_id,
                            place_bet(
                                s.markets[market_id],
                                MarketOutcome::of_code(outcome_id).unwrap(),
                                amount,
                            ),
                        ),
                        predictions: s.predictions.insert(
                            (market_id, t.from),
                            Prediction {
                                predictor: t.from,
                                market_id,
                                outcome_id,
                                amount,
                                claimed: false,
                            },
                        ),
                        events: s.events.push(
                            Event::PredictionPlaced {
                                market_id,
                                predictor: t.from,
                                outcome_id,
                                amount,
                            },
                        ),
                        ..s
                    })
                },
            },
    {
        let t = self.plan_place_prediction(origin, &market_id, outcome_id, amount)?;
        if !paid {
            return Err(DispatchError::TransferFailed);
        }
        let who = t.from;
        let outcome = match MarketOutcome::from_u8(outcome_id) {
            Ok(o) => o,
            Err(_) => {
                return Err(DispatchError::Pallet(Error::InvalidOutcome));
            },
        };
        let mut market = match self.markets.get(&market_id) {
            Some(m) => *m,
            None => {
                return Err(DispatchError::Pallet(Error::MarketNotFound));
            },
        };
        market.total_pool = market.total_pool.saturating_add(amount);
        match outcome {
            MarketOutcome::Player1Wins => {
                market.player1_pool = market.player1_pool.saturating_add(amount);
            },
            MarketOutcome::Player2Wins => {
                market.player2_pool = market.player2_pool.saturating_add(amount);
            },
            MarketOutcome::Draw => {
                market.draw_pool = market.draw_pool.saturating_add(amount);
            },
        }
        self.markets.insert(market_id, market);
        self.predictions.insert(
            (market_id, who),
            Prediction { predictor: who, market_id, outcome_id, amount, claimed: false },
        );
        self.events.push(Event::PredictionPlaced { market_id, predictor: who, outcome_id, amount });
        Ok(())
    }

    /// Locks open market `market_id`: no more bets.
    pub fn lock_market(&mut self, origin: Origin, market_id: HashId) -> (r: Result<
        (),
        DispatchError<Error>,
    >)
        requires
            old(self).wf(),
        ensures
            final(self).wf(),
            match signer(origin) {
                None => r == Err::<(), DispatchError<Error>>(DispatchError::BadOrigin)
                    && final(self)@ == old(self)@,
                Some(_) => match market_check(
                    old(self)@,
                    market_id,
                    MarketState::Open,
                    Error::MarketNotOpen,
                ) {
                    Some(e) => r == Err::<(), DispatchError<Error>>(DispatchError::Pallet(e))
                        && final(self)@ == old(self)@,
                    None => {
                        &&& r is Ok
                        &&& final(self)@ == (MarketView {
                            markets: old(self)@.markets.insert(
                                market_id,
                                PredictionMarket {
                                    state_id: MarketState::Locked.code(),
                                    ..old(self)@.markets[market_id]
                                },
                            ),
                            events: old(self)@.events.push(Event::MarketLocked { market_id }),
                            ..old(self)@
                        })
                    },
                },
            },
    {
        let _who = ensure_signed(origin)?;
        let mut market = self.check_market(&market_id, MarketState::Open, Error::MarketNotOpen)?;
        market.state_id = MarketState::Locked.to_u8();
        self.markets.insert(market_id, market);
        self.events.push(Event::MarketLocked { market_id });
        Ok(())
    }

    /// Resolves locked market `market_id` at block `now` from its finished battle: the
    /// outcome is the player who won more rounds, or a draw.
    pub fn resolve_market(
        &mut self,
        battles: &battlechain::Pallet,
        origin: Origin,
        market_id: HashId,
        now: u64,
    ) -> (r: Result<(), DispatchError<Error>>)
        requires
            old(self).wf(),
            battles.wf(),
        ensures
            final(self).wf(),
            match signer(origin) {
                None => r == Err::<(), DispatchError<Error>>(DispatchError::BadOrigin)
                    && final(self)@ == old(self)@,
                Some(_) => {
                    let s = old(self)@;
                    let m = s.markets[market_id];
                    let b = battles@.battles[m.battle_id];
                    match market_check(s, market_id, MarketState::Locked, Error::MarketNotLocked) {
                        Some(e) => r == Err::<(), DispatchError<Error>>(DispatchError::Pallet(e))
                            && final(self)@ == s,
                        None => if !battles@.battles.contains_key(m.battle_id) {
                            r == Err::<(), DispatchError<Error>>(
                                DispatchError::Pallet(Error::BattleNotFound),
                            ) && final(self)@ == s
                        } else if b.state != battlechain::BattleState::Finished {
                            r == Err::<(), DispatchError<Error>>(
                                DispatchError::Pallet(Error::BattleNotFinished),
                            ) && final(self)@ == s
                        } else {
                            let outcome = battle_outcome(b).code();
                            &&& r is Ok
                            &&& final(self)@ == (MarketView {
                                markets: s.markets.insert(
                                    market_id,
                                    PredictionMarket {
                                        outcome_id: Some(outcome),
                                        state_id: MarketState::Resolved.code(),
                                        resolve_block: Some(now),
                                        ..m
                                    },
                                ),
                                events: s.events.push(
                                    Event::MarketResolved {
                                        market_id,
                                        outcome_id: outcome,
                                        total_pool: m.total_pool,
                                    },
                                ),
                                ..s
                            })
                        },
                    }
                },
            },
    {
        let _who = ensure_signed(origin)?;
        let mut market = self.check_market(&market_id, MarketState::Locked, Error::MarketNotLocked)?;
        let battle = match battles.battle(&market.battle_id) {
            Some(b) => b,
            None => {
                return Err(DispatchError::Pallet(Error::BattleNotFound));
            },
        };
        match battle.state {
            battlechain::BattleState::Finished => {},
            _ => {
                return Err(DispatchError::Pallet(Error::BattleNotFinished));
            },
        }
        let outcome = if battle.player1_rounds_won > battle.player2_rounds_won {
            MarketOutcome::Player1Wins
        } else if battle.player2_rounds_won > battle.player1_rounds_won {
            MarketOutcome::Player2Wins
        } else {
            MarketOutcome::Draw
        };
        let outcome_id = outcome.to_u8();
        market.outcome_id = Some(outcome_id);
        market.state_id = MarketState::Resolved.to_u8();
        market.resolve_block = Some(now);
        let total_pool = market.total_pool;
        self.markets.insert(market_id, market);
        self.events.push(Event::MarketResolved { market_id, outcome_id, total_pool });
        Ok(())
    }

    /// The transfer that `claim_winnings` asks for, or why it fails.
    pub fn plan_claim_winnings(&self, origin: Origin, market_id: &HashId) -> (r: Result<
        Transfer,
        DispatchError<Error>,
    >)
        requires
            self.wf(),
        ensures
            r == claim_plan(self@, origin, *market_id),
    {
        let who = ensure_signed(origin)?;
        let market = self.check_market(market_id, MarketState::Resolved, Error::MarketNotResolved)?;
        let prediction = match self.predictions.get(&(*market_id, who)) {
            Some(p) => *p,
            None => {
                return Err(DispatchError::Pallet(Error::PredictionNotFound));
            },
        };
        if prediction.claimed {
            return Err(DispatchError::Pallet(Error::AlreadyClaimed));
        }
        let outcome_id = match market.outcome_id {
            Some(o) => o,
            None => {
                return Err(DispatchError::Pallet(Error::MarketNotResolved));
            },
        };
        if prediction.outcome_id != outcome_id {
            return Err(DispatchError::Pallet(Error::NoWinnings));
        }
        let outcome = match MarketOutcome::from_u8(outcome_id) {
            Ok(o) => o,
            Err(_) => {
                return Err(DispatchError::Pallet(Error::InvalidOutcome));
            },
        };
        let winning_pool = match outcome {
            MarketOutcome::Player1Wins => market.player1_pool,
            MarketOutcome::Player2Wins => market.player2_pool,
            MarketOutcome::Draw => market.draw_pool,
        };
        if winning_pool == 0 {
            return Err(DispatchError::Pallet(Error::NoWinnings));
        }
        let parts = permill_from_rational(self.config.platform_fee_bps as u128, BPS_WHOLE);
        let fee = permill_mul_floor(parts, market.total_pool);
        let total_after_fee = market.total_pool.saturating_sub(fee);
        let product = match prediction.amount.checked_mul(total_after_fee) {
            Some(x) => x,
            None => u128::MAX,
        };
        let user_share = product / winning_pool;
        Ok(Transfer { from: self.account_id(), to: who, amount: user_share, keep_alive: false })
    }

    /// The signer collects the payout of their winning prediction in resolved market
    /// `market_id`, once; the prediction is then marked claimed.
    pub fn claim_winnings(&mut self, origin: Origin, market_id: HashId, paid: bool) -> (r: Result<
        (),
        DispatchError<Error>,
    >)
        requires
            old(self).wf(),
        ensures
            final(self).wf(),
            match claim_plan(old(self)@, origin, market_id) {
                Err(e) => r == Err::<(), DispatchError<Error>>(e) && final(self)@ == old(self)@,
                Ok(t) => if !paid {
                    r == Err::<(), DispatchError<Error>>(DispatchError::TransferFailed)
                        && final(self)@ == old(self)@
                } else {
                    let s = old(self)@;
                    &&& r is Ok
                    &&& final(self)@ == (MarketView {
                        predictions: s.predictions.insert(
                            (market_id, t.to),
                            Prediction { claimed: true, ..s.predictions[(market_id, t.to)] },
                        ),
                        events: s.events.push(
                            Event::WinningsClaimed { market_id, predictor: t.to, payout: t.amount },
                        ),
                        ..s
                    })
                },
            },
    {
        let t = self.plan_claim_winnings(origin, &market_id)?;
        if !paid {
            return Err(DispatchError::TransferFailed);
        }
        let who = t.to;
        let mut prediction = match self.predictions.get(&(market_id, who)) {
            Some(p) => *p,
            None => {
                return Err(DispatchError::Pallet(Error::PredictionNotFound));
            },
        };
        prediction.claimed = true;
        self.predictions.insert((market_id, who), prediction);
        self.events.push(Event::WinningsClaimed { market_id, predictor: who, payout: t.amount });
        Ok(())
    }
}

/// A bet keeps the total pool equal to the sum of the outcome pools, as long as the total
/// stays within the balance range.
pub proof fn lemma_bet_keeps_pools_summed(m: PredictionMarket, outcome: MarketOutcome, amount: u128)
    requires
        m.total_pool == m.player1_pool + m.player2_pool + m.draw_pool,
        m.total_pool + amount <= u128::MAX,
    ensures
        ({
            let n = place_bet(m, outcome, amount);
            &&& n.total_pool == n.player1_pool + n.player2_pool + n.draw_pool
            &&& n.total_pool == m.total_pool + amount
            &&& pool_of(n, outcome) == pool_of(m, outcome) + amount
        }),
{
}

/// A market on a battle resolves to the player who won strictly more rounds, and to a
/// draw exactly when both won equally many; its stored code is 0, 1 or 2 accordingly.
pub proof fn lemma_outcome_follows_rounds_won(b: battlechain::Battle)
    ensures
        battle_outcome(b) == MarketOutcome::Player1Wins <==> b.player1_rounds_won
            > b.player2_rounds_won,
        battle_outcome(b) == MarketOutcome::Player2Wins <==> b.player2_rounds_won
            > b.player1_rounds_won,
        battle_outcome(b) == MarketOutcome::Draw <==> b.player1_rounds_won
            == b.player2_rounds_won,
        battle_outcome(b).code() == 0 <==> b.player1_rounds_won > b.player2_rounds_won,
        battle_outcome(b).code() == 1 <==> b.player2_rounds_won > b.player1_rounds_won,
        battle_outcome(b).code() == 2 <==> b.player1_rounds_won == b.player2_rounds_won,
{
}

/// The platform's fee is its configured share of the pool: the pool times
/// `fee_bps / 10000`, rounded down, or the whole pool where the share is above 10000.
pub proof fn lemma_platform_fee_follows_share(fee_bps: u16, total: u128)
    ensures
        fee_bps <= 10000 ==> platform_fee(fee_bps, total) as int == (total as int) * (
        fee_bps as int) / 10000,
        fee_bps > 10000 ==> platform_fee(fee_bps, total) == total,
{
    let bps = fee_bps as int;
    let pool = total as int;
    let parts = rational_parts(bps as nat, BPS_WHOLE as nat, PERMILL_ACCURACY as nat);
    assert(parts <= 1000000) by (nonlinear_arith)
        requires
            parts == rational_parts(bps as nat, BPS_WHOLE as nat, PERMILL_ACCURACY as nat),
    ;
    let floor = (pool * parts) / 1000000;
    assert(0 <= floor <= pool) by (nonlinear_arith)
        requires
            floor == (pool * parts) / 1000000,
            0 <= parts <= 1000000,
            0 <= pool,
    ;
    assert(platform_fee(fee_bps, total) as int == floor);
    if bps <= 10000 {
        assert(parts == bps * 100) by {
            assert(bps * 1000000 == 10000 * (bps * 100)) by (nonlinear_arith);
            vstd::arithmetic::div_mod::lemma_div_multiples_vanish(bps * 100, 10000);
        }
        assert(pool * parts == (pool * bps) * 100) by (nonlinear_arith)
            requires
                parts == bps * 100,
        ;
        assert(pool * bps >= 0) by (nonlinear_arith)
            requires
                pool >= 0,
                bps >= 0,
        ;
        vstd::arithmetic::div_mod::lemma_div_denominator((pool * bps) * 100, 100, 10000);
        vstd::arithmetic::div_mod::lemma_div_multiples_vanish(pool * bps, 100);
        assert((pool * bps) * 100 == 100 * (pool * bps)) by (nonlinear_arith);
        assert(floor == ((pool * bps) * 100) / 1000000);
        assert(((pool * bps) * 100) / 100 == pool * bps);
    } else {
        assert(parts == PERMILL_ACCURACY);
        vstd::arithmetic::div_mod::lemma_div_multiples_vanish(pool, 1000000);
        assert(pool * 1000000 == 1000000 * pool) by (nonlinear_arith);
    }
}

/// A winner who holds the whole winning pool is paid the whole market pool less the
/// platform fee (where that product fits in a balance).
pub proof fn lemma_sole_winner_takes_pool_less_fee(winning_pool: u128, total: u128, fee_bps: u16)
    requires
        0 < winning_pool,
        winning_pool * total.saturating_sub(platform_fee(fee_bps, total)) <= u128::MAX,
    ensures
        payout(winning_pool, winning_pool, total, fee_bps) == total - platform_fee(fee_bps, total),
{
    lemma_platform_fee_follows_share(fee_bps, total);
    assert(platform_fee(fee_bps, total) <= total) by (nonlinear_arith)
        requires
            fee_bps <= 10000 ==> platform_fee(fee_bps, total) as int == (total as int) * (
            fee_bps as int) / 10000,
            fee_bps > 10000 ==> platform_fee(fee_bps, total) == total,
    ;
    let after_fee = total.saturating_sub(platform_fee(fee_bps, total)) as int;
    vstd::arithmetic::div_mod::lemma_div_multiples_vanish(after_fee, winning_pool as int);
}

/// A larger winning bet is never paid less.
pub proof fn lemma_payout_grows_with_bet(
    smaller: u128,
    larger: u128,
    winning_pool: u128,
    total: u128,
    fee_bps: u16,
)
    requires
        0 < winning_pool,
        smaller <= larger,
    ensures
        payout(smaller, winning_pool, total, fee_bps) <= payout(larger, winning_pool, total, fee_bps),
{
    let after_fee = total.saturating_sub(platform_fee(fee_bps, total)) as int;
    assert(smaller * after_fee <= larger * after_fee) by (nonlinear_arith)
        requires
            smaller <= larger,
            0 <= after_fee,
    ;
    let p1 = if smaller * after_fee <= u128::MAX {
        smaller * after_fee
    } else {
        u128::MAX as int
    };
    let p2 = if larger * after_fee <= u128::MAX {
        larger * after_fee
    } else {
        u128::MAX as int
    };
    assert(0 <= p1 <= p2) by (nonlinear_arith)
        requires
            smaller * after_fee <= larger * after_fee,
            0 <= smaller,
            0 <= after_fee,
            p1 == (if smaller * after_fee <= u128::MAX {
                smaller * after_fee
            } else {
                u128::MAX as int
            }),
            p2 == (if larger * after_fee <= u128::MAX {
                larger * after_fee
            } else {
                u128::MAX as int
            }),
    ;
    vstd::arithmetic::div_mod::lemma_div_is_ordered(p1, p2, winning_pool as int);
}

/// A bet never leaves its own outcome's pool smaller than the bet.
pub proof fn lemma_bet_within_its_pool(m: PredictionMarket, outcome: MarketOutcome, amount: u128)
    ensures
        amount <= pool_of(place_bet(m, outcome, amount), outcome),
{
}

/// A winner whose bet is within the winning pool is paid at most the pool less the fee,
/// so never more than the market's total pool.
pub proof fn lemma_payout_within_pool(amount: u128, winning_pool: u128, total: u128, fee_bps: u16)
    requires
        0 < winning_pool,
        amount <= winning_pool,
    ensures
        payout(amount, winning_pool, total, fee_bps) <= total.saturating_sub(
            platform_fee(fee_bps, total),
        ),
        payout(amount, winning_pool, total, fee_bps) <= total,
{
    let after_fee = total.saturating_sub(platform_fee(fee_bps, total));
    let product = if amount * after_fee <= u128::MAX {
        (amount * after_fee) as u128
    } else {
        u128::MAX
    };
    assert(product <= amount * after_fee) by (nonlinear_arith)
        requires
            product == (if amount * after_fee <= u128::MAX {
                (amount * after_fee) as u128
            } else {
                u128::MAX
            }),
    ;
    assert(amount * after_fee <= winning_pool * after_fee) by (nonlinear_arith)
        requires
            amount <= winning_pool,
    ;
    assert(product / winning_pool <= after_fee) by (nonlinear_arith)
        requires
            product <= winning_pool * after_fee,
            0 < winning_pool,
    ;
}

/// The sum of a sequence of balances.
pub open spec fn seq_sum(amounts: Seq<u128>) -> int
    decreases amounts.len(),
{
    if amounts.len() == 0 {
        0
    } else {
        seq_sum(amounts.drop_last()) + amounts.last()
    }
}

/// What winners with bets `amounts` are paid in all, each by `payout`.
pub open spec fn total_payouts(amounts: Seq<u128>, winning_pool: u128, total: u128, fee_bps: u16) -> int
    decreases amounts.len(),
{
    if amounts.len() == 0 {
        0
    } else {
        total_payouts(amounts.drop_last(), winning_pool, total, fee_bps) + payout(
            amounts.last(),
            winning_pool,
            total,
            fee_bps,
        )
    }
}

/// Each payout is at most the winner's share of the pool less the fee:
/// `payout * winning_pool <= amount * after_fee`, and summed over any winners.
proof fn lemma_total_payouts_scaled(amounts: Seq<u128>, winning_pool: u128, total: u128, fee_bps: u16)
    requires
        0 < winning_pool,
    ensures
        total_payouts(amounts, winning_pool, total, fee_bps) * winning_pool <= seq_sum(amounts)
            * total.saturating_sub(platform_fee(fee_bps, total)),
    decreases amounts.len(),
{
    if amounts.len() > 0 {
        let rest = amounts.drop_last();
        let amount = amounts.last();
        lemma_total_payouts_scaled(rest, winning_pool, total, fee_bps);
        let after_fee = total.saturating_sub(platform_fee(fee_bps, total));
        let product = if amount * after_fee <= u128::MAX {
            (amount * after_fee) as u128
        } else {
            u128::MAX
        };
        assert(product <= amount * after_fee) by (nonlinear_arith)
            requires
                product == (if amount * after_fee <= u128::MAX {
                    (amount * after_fee) as u128
                } else {
                    u128::MAX
                }),
        ;
        assert((product / winning_pool) * winning_pool <= product) by (nonlinear_arith)
            requires
                0 < winning_pool,
        ;
        let paid_before = total_payouts(rest, winning_pool, total, fee_bps);
        let sum_before = seq_sum(rest);
        assert((paid_before + product / winning_pool) * winning_pool <= (sum_before + amount)
            * after_fee) by (nonlinear_arith)
            requires
                paid_before * winning_pool <= sum_before * after_fee,
                (product / winning_pool) * winning_pool <= product,
                product <= amount * after_fee,
        ;
    }
}

/// However the winners of a resolved market claim, what they are paid in all never
/// exceeds the pool less the platform fee, so never the market's total pool: for any
/// winning bets `amounts` on `outcome` that together make up at most that outcome's pool,
/// the sum of their payouts is within the pool less the fee.
pub proof fn lemma_total_payouts_within_pool(
    m: PredictionMarket,
    outcome: MarketOutcome,
    fee_bps: u16,
    amounts: Seq<u128>,
)
    requires
        0 < pool_of(m, outcome),
        seq_sum(amounts) <= pool_of(m, outcome),
    ensures
        total_payouts(amounts, pool_of(m, outcome), m.total_pool, fee_bps)
            <= m.total_pool.saturating_sub(platform_fee(fee_bps, m.total_pool)),
        total_payouts(amounts, pool_of(m, outcome), m.total_pool, fee_bps) <= m.total_pool,
{
    let w = pool_of(m, outcome);
    let after_fee = m.total_pool.saturating_sub(platform_fee(fee_bps, m.total_pool));
    let paid = total_payouts(amounts, w, m.total_pool, fee_bps);
    lemma_total_payouts_scaled(amounts, w, m.total_pool, fee_bps);
    assert(seq_sum(amounts) * after_fee <= w * after_fee) by (nonlinear_arith)
        requires
            seq_sum(amounts) <= w,
            0 <= after_fee,
    ;
    assert(paid <= after_fee) by (nonlinear_arith)
        requires
            paid * w <= w * after_fee,
            0 < w,
    ;
}

/// Bets are taken only while a market is open.
pub proof fn lemma_bets_only_while_open(
    s: MarketView,
    origin: Origin,
    market_id: HashId,
    outcome_id: u8,
    amount: u128,
)
    requires
        place_plan(s, origin, market_id, outcome_id, amount) is Ok,
    ensures
        s.markets.contains_key(market_id),
        s.markets[market_id].state_id == MarketState::Open.code(),
        outcome_id < 3,
{
}

/// Every state the pallet's operations reach is consistent: markets only ever hold the
/// codes of open, locked or resolved markets, have an outcome exactly when resolved, and
/// predictions refer to stored markets. So a stored market is never refused for a bad
/// state code, and a claim never fails for a bad outcome code.
pub proof fn lemma_reachable_markets_consistent(p: &Pallet, origin: Origin, market_id: HashId)
    requires
        p.wf(),
    ensures
        markets_consistent(p@.markets, p@.predictions, p@.battle_markets),
        p@.markets.contains_key(market_id) ==> MarketState::of_code(
            p@.markets[market_id].state_id,
        ) is Ok,
        claim_plan(p@, origin, market_id) != Err::<Transfer, DispatchError<Error>>(
            DispatchError::Pallet(Error::InvalidOutcome),
        ),
{
}

/// Winnings are paid once: a claimed prediction cannot be claimed again.
pub proof fn lemma_winnings_claimed_once(s: MarketView, who: u64, market_id: HashId)
    requires
        market_check(s, market_id, MarketState::Resolved, Error::MarketNotResolved) is None,
        s.predictions.contains_key((market_id, who)),
        s.predictions[(market_id, who)].claimed,
    ensures
        claim_plan(s, Origin::Signed(who), market_id) == Err::<Transfer, DispatchError<Error>>(
            DispatchError::Pallet(Error::AlreadyClaimed),
        ),
{
}

/// Only a resolved market pays out, and only on predictions of its outcome.
pub proof fn lemma_claims_need_resolution(s: MarketView, origin: Origin, market_id: HashId)
    requires
        claim_plan(s, origin, market_id) is Ok,
    ensures
        s.markets.contains_key(market_id),
        s.markets[market_id].state_id == MarketState::Resolved.code(),
        s.markets[market_id].outcome_id is Some,
        s.predictions[(market_id, signer(origin).unwrap())].outcome_id
            == s.markets[market_id].outcome_id.unwrap(),
{
}

} // verus!
